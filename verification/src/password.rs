//! The password dialog of a locked file: what was typed, and whether the last try
//! was wrong.
use vstd::prelude::*;

use crate::foundation::FileId;
use crate::text::{char_is_control, is_control, push_char, str_eq};

verus! {

/// Most bytes (UTF-8) the entry takes.
pub const MAX_ENTRY_BYTES: usize = 24;

/// The entry after typing `typed` into `entry`: control characters are skipped,
/// and a character is taken only while the entry is under the byte limit.
pub open spec fn typed_into(entry: Seq<char>, typed: Seq<char>) -> Seq<char>
    decreases typed.len(),
{
    if typed.len() == 0 {
        entry
    } else {
        let e = typed_into(entry, typed.drop_last());
        let c = typed.last();
        if !is_control(c) && vstd::utf8::encode_utf8(e).len() < MAX_ENTRY_BYTES {
            e.push(c)
        } else {
            e
        }
    }
}

proof fn lemma_encode_push(s: Seq<char>, c: char)
    ensures
        vstd::utf8::encode_utf8(s.push(c)) == vstd::utf8::encode_utf8(s) + vstd::utf8::encode_scalar(c as u32),
        1 <= vstd::utf8::encode_scalar(c as u32).len() <= 4,
    decreases s.len(),
{
    if s.len() == 0 {
        assert(s.push(c).drop_first() =~= Seq::<char>::empty());
        assert(vstd::utf8::encode_utf8(Seq::<char>::empty()) =~= Seq::<u8>::empty());
        assert(s.push(c)[0] == c);
        assert(vstd::utf8::encode_utf8(s.push(c)) =~= vstd::utf8::encode_scalar(c as u32) + vstd::utf8::encode_utf8(Seq::<char>::empty()));
        assert(vstd::utf8::encode_utf8(s.push(c)) =~= vstd::utf8::encode_scalar(c as u32));
    } else {
        lemma_encode_push(s.drop_first(), c);
        assert(s.push(c).drop_first() =~= s.drop_first().push(c));
        assert(s.push(c)[0] == s[0]);
        assert(vstd::utf8::encode_utf8(s.push(c)) =~= vstd::utf8::encode_scalar(s[0] as u32) + (
        vstd::utf8::encode_utf8(s.drop_first()) + vstd::utf8::encode_scalar(c as u32)));
    }
}

/// The password dialog of the locked file `id`.
pub struct PasswordApp {
    pub id: FileId,
    pub password: String,
    pub entry: String,
    pub error: bool,
}

impl PasswordApp {
    /// The entry stays within a few bytes of its limit.
    pub open spec fn wf(&self) -> bool {
        vstd::utf8::encode_utf8(self.entry@).len() < MAX_ENTRY_BYTES + 4
    }
}

impl PasswordApp {
    /// A dialog with nothing typed yet.
    pub fn new(id: FileId, password: String) -> (r: PasswordApp)
        ensures
            r.id == id,
            r.password == password,
            r.entry@.len() == 0,
            !r.error,
            r.wf(),
    {
        PasswordApp { id, password, entry: String::new(), error: false }
    }

    /// Types the characters `typed`; a taken character clears the error.
    pub fn type_chars(&mut self, typed: &Vec<char>)
        requires
            old(self).wf(),
        ensures
            final(self).wf(),
            final(self).entry@ == typed_into(old(self).entry@, typed@),
            final(self).id == old(self).id,
            final(self).password == old(self).password,
            final(self).error == (old(self).error && final(self).entry@ == old(self).entry@),
    {
        let mut i: usize = 0;
        while i < typed.len()
            invariant
                i <= typed.len(),
                self.entry@ == typed_into(old(self).entry@, typed@.take(i as int)),
                self.id == old(self).id,
                self.password == old(self).password,
                self.error == (old(self).error && self.entry@ == old(self).entry@),
                self.entry@.len() >= old(self).entry@.len(),
                self.wf(),
            decreases typed.len() - i,
        {
            proof {
                assert(typed@.take(i + 1).drop_last() =~= typed@.take(i as int));
            }
            let c = typed[i];
            if !char_is_control(c) && self.entry.as_str().len() < MAX_ENTRY_BYTES {
                proof {
                    lemma_encode_push(self.entry@, c);
                }
                push_char(&mut self.entry, c);
                self.error = false;
            }
            i = i + 1;
        }
        proof {
            assert(typed@.take(typed.len() as int) =~= typed@);
        }
    }

    /// Takes the last character off the entry and clears the error.
    pub fn backspace(&mut self)
        requires
            old(self).wf(),
        ensures
            final(self).wf(),
            final(self).entry@ == if old(self).entry@.len() > 0 {
                old(self).entry@.drop_last()
            } else {
                old(self).entry@
            },
            !final(self).error,
            final(self).id == old(self).id,
            final(self).password == old(self).password,
    {
        let n = self.entry.unicode_len();
        if n > 0 {
            let rest = self.entry.substring_char(0, n - 1).to_owned();
            proof {
                assert(self.entry@ =~= rest@.push(self.entry@.last()));
                lemma_encode_push(rest@, self.entry@.last());
            }
            self.entry = rest;
        }
        self.error = false;
    }

    /// Tries the entry: the file's id when it is the password; otherwise the entry
    /// is cleared and the error shown.
    pub fn submit(&mut self) -> (r: Option<FileId>)
        ensures
            r is Some <==> old(self).entry@ == old(self).password@,
            r matches Some(id) ==> id == old(self).id && *final(self) == *old(self),
            final(self).wf() == old(self).wf() || final(self).entry@.len() == 0,
            r is None ==> final(self).wf() && final(self).error && final(self).entry@.len() == 0 && final(self).id == old(self).id
                && final(self).password == old(self).password,
    {
        if str_eq(self.entry.as_str(), self.password.as_str()) {
            Some(self.id)
        } else {
            self.error = true;
            self.entry = String::new();
            None
        }
    }
}

/// Typing a password of at most `MAX_ENTRY_BYTES` bytes without control
/// characters into an empty dialog gives exactly that password, so submitting it
/// opens the file.
pub proof fn law_typing_the_password(pw: Seq<char>)
    requires
        forall|i: int| 0 <= i < pw.len() ==> !is_control(#[trigger] pw[i]),
        vstd::utf8::encode_utf8(pw).len() <= MAX_ENTRY_BYTES,
    ensures
        typed_into(Seq::empty(), pw) == pw,
    decreases pw.len(),
{
    if pw.len() > 0 {
        let d = pw.drop_last();
        assert(pw =~= d.push(pw.last()));
        lemma_encode_push(d, pw.last());
        assert forall|i: int| 0 <= i < d.len() implies !is_control(#[trigger] d[i]) by {
            assert(d[i] == pw[i]);
        }
        law_typing_the_password(d);
        assert(!is_control(pw[pw.len() - 1]));
    }
}

} // verus!
