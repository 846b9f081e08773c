//! The installer wizard of the archive tool: its pages and the random numbers
//! that make its progress bar stutter.
use vstd::prelude::*;

use crate::foundation::Language;
use crate::strings::{label_text, t, Label};

verus! {

/// One xorshift64 step.
pub open spec fn xorshift(x: u64) -> u64 {
    let a = x ^ (x << 13u64);
    let b = a ^ (a >> 7u64);
    b ^ (b << 17u64)
}

/// A small xorshift64 random number generator.
pub struct Rng {
    pub state: u64,
}

impl Rng {
    /// A generator seeded with `seed` (made odd, so never zero).
    pub fn new(seed: u64) -> (r: Rng)
        ensures
            r.state == seed | 1,
    {
        Rng { state: seed | 1 }
    }

    /// Advances the state by one xorshift step and returns bits 16 to 47 of it.
    pub fn next_u32(&mut self) -> (r: u32)
        ensures
            final(self).state == xorshift(old(self).state),
            r == (xorshift(old(self).state) >> 16u64) as u32,
    {
        self.state = self.state ^ (self.state << 13u64);
        self.state = self.state ^ (self.state >> 7u64);
        self.state = self.state ^ (self.state << 17u64);
        (self.state >> 16u64) as u32
    }
}

/// The made-up status lines shown while installing, in the order the progress
/// bar reaches them.
pub fn status_steps(lang: Language) -> (r: [&'static str; 5])
    ensures
        r[0]@ == label_text(lang, Label::StepCopying),
        r[1]@ == label_text(lang, Label::StepRegistering),
        r[2]@ == label_text(lang, Label::StepUpdating),
        r[3]@ == label_text(lang, Label::StepVerifying),
        r[4]@ == label_text(lang, Label::StepFinalizing),
{
    [
        t(lang, Label::StepCopying),
        t(lang, Label::StepRegistering),
        t(lang, Label::StepUpdating),
        t(lang, Label::StepVerifying),
        t(lang, Label::StepFinalizing),
    ]
}

/// The license terms shown on the license page, title included.
pub fn license_text(lang: Language) -> (r: &'static str)
    ensures
        r@ == label_text(lang, Label::LicenseText),
{
    t(lang, Label::LicenseText)
}

/// A page of the wizard.
#[derive(Clone, Copy, Debug, PartialEq, Eq, Structural)]
pub enum Page {
    AlreadyInstalled,
    Welcome,
    License,
    Installing,
    Finish,
}

/// A button of the wizard's bottom row.
#[derive(Clone, Copy, Debug, PartialEq, Eq, Structural)]
pub enum NavClick {
    Nothing,
    Back,
    Next,
    Cancel,
}

/// What the wizard asks of the desktop.
#[derive(Clone, Copy, Debug, PartialEq, Eq, Structural)]
pub enum InstallerSignal {
    Nothing,
    /// Close the window.
    Close,
    /// The installation just finished (sent once).
    InstallComplete,
}

/// The wizard's state.
pub struct InstallerApp {
    pub page: Page,
    pub license_accepted: bool,
    pub sent_complete: bool,
}

/// The page after pressing `click` on `page` (the installing page has no buttons;
/// "Next" on the license page works only once the terms are accepted), and
/// whether the window closes.
pub open spec fn nav_step(page: Page, click: NavClick, accepted: bool) -> (Page, bool) {
    match (page, click) {
        (Page::AlreadyInstalled, NavClick::Next) => (page, true),
        (Page::Welcome, NavClick::Next) => (Page::License, false),
        (Page::Welcome, NavClick::Cancel) => (page, true),
        (Page::License, NavClick::Next) => if accepted {
            (Page::Installing, false)
        } else {
            (page, false)
        },
        (Page::License, NavClick::Back) => (Page::Welcome, false),
        (Page::License, NavClick::Cancel) => (page, true),
        (Page::Finish, NavClick::Next) => (page, true),
        _ => (page, false),
    }
}

/// The wizard and what it signals after pressing `click`: the page moves as
/// `nav_step` says, entering the installing page starts the installation afresh.
pub open spec fn nav_result(s: InstallerApp, click: NavClick) -> (InstallerApp, InstallerSignal) {
    let (page, close) = nav_step(s.page, click, s.license_accepted);
    (
        InstallerApp {
            page,
            license_accepted: s.license_accepted,
            sent_complete: if page == Page::Installing && s.page != Page::Installing {
                false
            } else {
                s.sent_complete
            },
        },
        if close {
            InstallerSignal::Close
        } else {
            InstallerSignal::Nothing
        },
    )
}

/// The wizard and what it signals after one frame of the installing page: a full
/// bar (`done`) reports completion once, and the finish page follows once the
/// "Done." pause is over (`hold_over`).
pub open spec fn tick_result(s: InstallerApp, done: bool, hold_over: bool) -> (InstallerApp, InstallerSignal) {
    (
        InstallerApp {
            page: if done && hold_over {
                Page::Finish
            } else {
                s.page
            },
            license_accepted: s.license_accepted,
            sent_complete: s.sent_complete || done,
        },
        if done && !s.sent_complete {
            InstallerSignal::InstallComplete
        } else {
            InstallerSignal::Nothing
        },
    )
}

/// Something that happens to the wizard in a frame.
pub enum InstallerEvent {
    /// A bottom-row button was pressed.
    Nav(NavClick),
    /// The license checkbox was set to this value.
    Accept(bool),
    /// A frame passed; on the installing page the bar may be full (`done`) and the
    /// "Done." pause over (`hold_over`).
    Tick { done: bool, hold_over: bool },
}

/// The wizard and what it signals after `e`; a frame only counts on the
/// installing page.
pub open spec fn event_result(s: InstallerApp, e: InstallerEvent) -> (InstallerApp, InstallerSignal) {
    match e {
        InstallerEvent::Nav(click) => nav_result(s, click),
        InstallerEvent::Accept(a) => (InstallerApp { license_accepted: a, ..s }, InstallerSignal::Nothing),
        InstallerEvent::Tick { done, hold_over } => if s.page == Page::Installing {
            tick_result(s, done, hold_over)
        } else {
            (s, InstallerSignal::Nothing)
        },
    }
}

/// The wizard after the events `es` in order, and how many times they reported
/// the installation complete.
pub open spec fn run(s: InstallerApp, es: Seq<InstallerEvent>) -> (InstallerApp, nat)
    decreases es.len(),
{
    if es.len() == 0 {
        (s, 0)
    } else {
        let (s1, sig) = event_result(s, es[0]);
        let (sf, n) = run(s1, es.drop_first());
        (sf, n + if sig == InstallerSignal::InstallComplete {
            1nat
        } else {
            0nat
        })
    }
}

impl InstallerApp {
    /// The wizard as it opens: straight to "already installed" when the tool is
    /// installed, else at the welcome page.
    pub fn new(already_installed: bool) -> (r: InstallerApp)
        ensures
            r.page == if already_installed { Page::AlreadyInstalled } else { Page::Welcome },
            !r.license_accepted,
            !r.sent_complete,
    {
        InstallerApp {
            page: if already_installed {
                Page::AlreadyInstalled
            } else {
                Page::Welcome
            },
            license_accepted: false,
            sent_complete: false,
        }
    }

    /// Presses a bottom-row button; entering the installing page starts the
    /// installation afresh.
    pub fn nav(&mut self, click: NavClick) -> (r: InstallerSignal)
        ensures
            (*final(self), r) == nav_result(*old(self), click),
            final(self).page == nav_step(old(self).page, click, old(self).license_accepted).0,
            r == if nav_step(old(self).page, click, old(self).license_accepted).1 {
                InstallerSignal::Close
            } else {
                InstallerSignal::Nothing
            },
            final(self).license_accepted == old(self).license_accepted,
            final(self).sent_complete == if final(self).page == Page::Installing && old(self).page != Page::Installing {
                false
            } else {
                old(self).sent_complete
            },
    {
        match (self.page, click) {
            (Page::AlreadyInstalled, NavClick::Next) => InstallerSignal::Close,
            (Page::Welcome, NavClick::Next) => {
                self.page = Page::License;
                InstallerSignal::Nothing
            },
            (Page::Welcome, NavClick::Cancel) => InstallerSignal::Close,
            (Page::License, NavClick::Next) => {
                if self.license_accepted {
                    self.page = Page::Installing;
                    self.sent_complete = false;
                }
                InstallerSignal::Nothing
            },
            (Page::License, NavClick::Back) => {
                self.page = Page::Welcome;
                InstallerSignal::Nothing
            },
            (Page::License, NavClick::Cancel) => InstallerSignal::Close,
            (Page::Finish, NavClick::Next) => InstallerSignal::Close,
            _ => InstallerSignal::Nothing,
        }
    }

    /// Ticks the checkbox of the license terms.
    pub fn set_license_accepted(&mut self, accepted: bool)
        ensures
            final(self).license_accepted == accepted,
            final(self).page == old(self).page,
            final(self).sent_complete == old(self).sent_complete,
    {
        self.license_accepted = accepted;
    }

    /// One frame of the installing page: once the bar is full (`done`) the
    /// installation is reported complete, once only; once the "Done." pause is over
    /// (`hold_over`) the finish page follows.
    pub fn installing_tick(&mut self, done: bool, hold_over: bool) -> (r: InstallerSignal)
        requires
            old(self).page == Page::Installing,
        ensures
            (*final(self), r) == tick_result(*old(self), done, hold_over),
            r == if done && !old(self).sent_complete {
                InstallerSignal::InstallComplete
            } else {
                InstallerSignal::Nothing
            },
            final(self).sent_complete == (old(self).sent_complete || done),
            final(self).page == if done && hold_over { Page::Finish } else { Page::Installing },
            final(self).license_accepted == old(self).license_accepted,
    {
        let mut r = InstallerSignal::Nothing;
        if done {
            if !self.sent_complete {
                self.sent_complete = true;
                r = InstallerSignal::InstallComplete;
            }
            if hold_over {
                self.page = Page::Finish;
            }
        }
        r
    }
}

impl InstallerApp {
    /// Lets `e` happen to the wizard.
    pub fn handle(&mut self, e: InstallerEvent) -> (r: InstallerSignal)
        ensures
            (*final(self), r) == event_result(*old(self), e),
    {
        match e {
            InstallerEvent::Nav(click) => self.nav(click),
            InstallerEvent::Accept(a) => {
                self.set_license_accepted(a);
                InstallerSignal::Nothing
            },
            InstallerEvent::Tick { done, hold_over } => {
                if self.page == Page::Installing {
                    self.installing_tick(done, hold_over)
                } else {
                    InstallerSignal::Nothing
                }
            },
        }
    }
}

/// How many more completions a wizard in state `s` can report: none once it was
/// reported, on the finish page or when the tool was installed already.
pub open spec fn completions_left(s: InstallerApp) -> nat {
    if s.page == Page::AlreadyInstalled || s.page == Page::Finish || (s.page == Page::Installing && s.sent_complete) {
        0
    } else {
        1
    }
}

proof fn lemma_run_bound(s: InstallerApp, es: Seq<InstallerEvent>)
    ensures
        run(s, es).1 <= completions_left(s),
    decreases es.len(),
{
    if es.len() > 0 {
        let (s1, sig) = event_result(s, es[0]);
        lemma_run_bound(s1, es.drop_first());
        assert((if sig == InstallerSignal::InstallComplete { 1nat } else { 0nat }) + completions_left(s1)
            <= completions_left(s));
    }
}

/// Over any sequence of events the wizard reports the installation complete at
/// most once, and never when it opened with the tool already installed.
pub proof fn law_install_complete_once(already_installed: bool, es: Seq<InstallerEvent>)
    ensures
        ({
            let s0 = InstallerApp {
                page: if already_installed {
                    Page::AlreadyInstalled
                } else {
                    Page::Welcome
                },
                license_accepted: false,
                sent_complete: false,
            };
            &&& run(s0, es).1 <= 1
            &&& already_installed ==> run(s0, es).1 == 0
        }),
{
    let s0 = InstallerApp {
        page: if already_installed {
            Page::AlreadyInstalled
        } else {
            Page::Welcome
        },
        license_accepted: false,
        sent_complete: false,
    };
    lemma_run_bound(s0, es);
}

/// "Back" on the license page returns to the welcome page without closing, so
/// "Next" then "Back" from the welcome page leaves the wizard as it was.
pub proof fn law_back_undoes_next(s: InstallerApp)
    ensures
        s.page == Page::License ==> nav_result(s, NavClick::Back) == (
        InstallerApp { page: Page::Welcome, ..s },
        InstallerSignal::Nothing,
        ),
        s.page == Page::Welcome ==> nav_result(s, NavClick::Next).0.page == Page::License && nav_result(
            nav_result(s, NavClick::Next).0,
            NavClick::Back,
        ) == (s, InstallerSignal::Nothing),
{
}

/// The installing page is reached from the license page only with the terms
/// accepted, and "Cancel" closes the wizard on every page that shows it.
pub proof fn law_license_gate(page: Page, click: NavClick, accepted: bool)
    ensures
        nav_step(page, click, accepted).0 == Page::Installing && page != Page::Installing ==> page == Page::License
            && accepted && click == NavClick::Next,
        (page == Page::Welcome || page == Page::License) && click == NavClick::Cancel ==> nav_step(
            page,
            click,
            accepted,
        ).1,
{
}

} // verus!
