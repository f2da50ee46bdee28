//! The course of a monitoring session: waiting for the permission, observing,
//! and ending. The session only decides; its caller looks, waits and listens,
//! and hands back what came of it.

use crate::engine::{wait_step, Next};
use crate::text;
use vstd::prelude::*;
use vstd::string::*;

verus! {

/// Where a session stands.
#[derive(Debug, Clone, Copy, PartialEq, Eq, Structural)]
pub enum Stage {
    /// Look at the permission, for the first time or once more.
    Look { first: bool },
    /// The permission is missing: wait for a while, or for an action of the
    /// window.
    Idle,
    /// The permission is there: start observing.
    Start,
    /// Take the next event of the observer, or action of the window.
    Listen,
    /// End.
    End,
}

/// What a stage led to.
#[derive(Debug, Clone, Copy, PartialEq, Eq, Structural)]
pub enum Input {
    /// What the look at the permission showed.
    Trusted(bool),
    /// The wait is over.
    Elapsed,
    /// The observer has been started.
    Started,
    /// The observer has told something, and the engine has taken it in.
    Observed(Next),
    /// The observer has stopped.
    ObserverGone,
    /// The window has asked for something, and it was done.
    Acted { quit: bool },
    /// The window is gone.
    WindowGone,
}

/// Whether an input can come of a stage.
pub open spec fn fits(stage: Stage, input: Input) -> bool {
    match stage {
        Stage::Look { .. } => input is Trusted,
        Stage::Idle => input == Input::Elapsed || input is Acted || input == Input::WindowGone,
        Stage::Start => input == Input::Started,
        Stage::Listen => input is Observed || input == Input::ObserverGone || input is Acted
            || input == Input::WindowGone,
        Stage::End => false,
    }
}

/// The stage that follows.
pub open spec fn stage_after(stage: Stage, input: Input) -> Stage {
    match (stage, input) {
        (Stage::End, _) => Stage::End,
        (_, Input::WindowGone) => Stage::End,
        (_, Input::Acted { quit: true }) => Stage::End,
        (Stage::Look { .. }, Input::Trusted(true)) => Stage::Start,
        (Stage::Look { first: true }, Input::Trusted(false)) => Stage::Look { first: false },
        (Stage::Look { first: false }, Input::Trusted(false)) => Stage::Idle,
        (Stage::Idle, _) => Stage::Look { first: false },
        (Stage::Start, _) => Stage::Listen,
        (Stage::Listen, Input::ObserverGone) => Stage::Look { first: true },
        (Stage::Listen, Input::Observed(Next::WaitForPermission)) => Stage::Look { first: true },
        (Stage::Listen, Input::Observed(Next::Quit)) => Stage::End,
        _ => stage,
    }
}

/// The first stage.
pub fn first_stage() -> (r: Stage)
    ensures
        r == (Stage::Look { first: true }),
{
    Stage::Look { first: true }
}

/// The stage that follows, by what a stage led to.
pub fn next_stage(stage: Stage, input: Input) -> (r: Stage)
    ensures
        r == stage_after(stage, input),
{
    match (stage, input) {
        (Stage::End, _) => Stage::End,
        (_, Input::WindowGone) => Stage::End,
        (_, Input::Acted { quit: true }) => Stage::End,
        (Stage::Look { .. }, Input::Trusted(true)) => Stage::Start,
        (Stage::Look { first: true }, Input::Trusted(false)) => Stage::Look { first: false },
        (Stage::Look { first: false }, Input::Trusted(false)) => Stage::Idle,
        (Stage::Idle, _) => Stage::Look { first: false },
        (Stage::Start, _) => Stage::Listen,
        (Stage::Listen, Input::ObserverGone) => Stage::Look { first: true },
        (Stage::Listen, Input::Observed(Next::WaitForPermission)) => Stage::Look { first: true },
        (Stage::Listen, Input::Observed(Next::Quit)) => Stage::End,
        _ => stage,
    }
}

// ---------------------------------------------------------------------------
// What is shown
// ---------------------------------------------------------------------------

/// What a session shows.
#[derive(Debug)]
pub enum Shown {
    /// A line, on the console of the window.
    Line(String),
    /// The status, in the window.
    Status { exiting: bool },
    /// How to grant the permission, to one who runs the program without a
    /// window.
    PermissionScreen,
}

/// What is shown, with the texts.
pub enum ShownView {
    Line(Seq<char>),
    Status { exiting: bool },
    PermissionScreen,
}

impl View for Shown {
    type V = ShownView;

    open spec fn view(&self) -> ShownView {
        match *self {
            Shown::Line(line) => ShownView::Line(line@),
            Shown::Status { exiting } => ShownView::Status { exiting },
            Shown::PermissionScreen => ShownView::PermissionScreen,
        }
    }
}

/// What a row of things to show says.
pub open spec fn shown_views(row: Seq<Shown>) -> Seq<ShownView> {
    row.map_values(|s: Shown| s@)
}

/// What is shown of the stage itself, by what it led to.
pub open spec fn shown_of(stage: Stage, input: Input) -> Seq<ShownView> {
    let status = ShownView::Status { exiting: false };
    let started = ShownView::Line("Monitoring started."@);
    match (stage, input) {
        (Stage::Look { first: true }, Input::Trusted(true)) => seq![started, status],
        (Stage::Look { first: false }, Input::Trusted(true)) => seq![
            ShownView::Line("✓ Accessibility permission granted."@),
            status,
            started,
            status,
        ],
        (Stage::Look { first: true }, Input::Trusted(false)) => seq![
            ShownView::Line(
                "⚠️ Accessibility permission required. System Settings → Privacy & Security → Accessibility."@,
            ),
            status,
        ],
        (Stage::Idle, Input::Elapsed) => seq![status],
        (Stage::Listen, Input::Observed(Next::Quit)) => seq![ShownView::PermissionScreen],
        _ => Seq::empty(),
    }
}

/// What is shown between a stage and the next one: what the stage itself calls
/// for, and at the end of the session the last status.
pub open spec fn shown_between(stage: Stage, input: Input) -> Seq<ShownView> {
    if stage != Stage::End && stage_after(stage, input) == Stage::End {
        shown_of(stage, input).push(ShownView::Status { exiting: true })
    } else {
        shown_of(stage, input)
    }
}

/// What is shown when a session begins: the status.
pub fn show_first() -> (r: Vec<Shown>)
    ensures
        shown_views(r@) == seq![ShownView::Status { exiting: false }],
{
    let mut row: Vec<Shown> = Vec::new();
    row.push(Shown::Status { exiting: false });
    assert(shown_views(row@) =~= seq![ShownView::Status { exiting: false }]);
    row
}

fn push_shown(row: &mut Vec<Shown>, one: Shown)
    ensures
        shown_views(final(row)@) == shown_views(old(row)@).push(one@),
{
    let ghost before = shown_views(row@);
    row.push(one);
    assert(shown_views(row@) =~= before.push(one@));
}

/// What is shown of a look at the permission.
fn show_look(first: bool, trusted: bool) -> (r: Vec<Shown>)
    ensures
        shown_views(r@) == shown_of(Stage::Look { first }, Input::Trusted(trusted)),
{
    let mut row: Vec<Shown> = Vec::new();
    assert(shown_views(row@) =~= Seq::empty());
    let step = wait_step(first, trusted);
    let ghost said = text::texts(step.lines@);
    if step.lines.len() > 0 {
        assert(said.len() == 1 && said[0] == step.lines@[0]@);
        push_shown(&mut row, Shown::Line(step.lines[0].clone()));
    } else {
        assert(said.len() == 0);
    }
    if step.show_status {
        push_shown(&mut row, Shown::Status { exiting: false });
    }
    if step.ready {
        push_shown(&mut row, Shown::Line("Monitoring started.".to_string()));
        push_shown(&mut row, Shown::Status { exiting: false });
    }
    assert(shown_views(row@) =~= shown_of(Stage::Look { first }, Input::Trusted(trusted)));
    row
}

/// What to show between a stage and the next one, in order. What the engine
/// says of events and actions is shown before.
pub fn show_between(stage: Stage, input: Input) -> (r: Vec<Shown>)
    ensures
        shown_views(r@) == shown_between(stage, input),
{
    let mut row: Vec<Shown> = Vec::new();
    assert(shown_views(row@) =~= Seq::empty());
    match (stage, input) {
        (Stage::Look { first }, Input::Trusted(trusted)) => {
            row = show_look(first, trusted);
        },
        (Stage::Idle, Input::Elapsed) => {
            push_shown(&mut row, Shown::Status { exiting: false });
        },
        (Stage::Listen, Input::Observed(Next::Quit)) => {
            push_shown(&mut row, Shown::PermissionScreen);
        },
        _ => {},
    }
    assert(shown_views(row@) =~= shown_of(stage, input));
    if stage != Stage::End && next_stage(stage, input) == Stage::End {
        push_shown(&mut row, Shown::Status { exiting: true });
    }
    row
}

/// The status that says that the program ends is shown when a session comes to
/// its end, as the last thing, and never before.
pub proof fn law_exit_is_shown_last(stage: Stage, input: Input)
    ensures
        stage != Stage::End && stage_after(stage, input) == Stage::End ==> shown_between(
            stage,
            input,
        ).len() > 0 && shown_between(stage, input).last() == (ShownView::Status { exiting: true }),
        forall|i: int|
            0 <= i < shown_between(stage, input).len() && #[trigger] shown_between(stage, input)[i]
                == (ShownView::Status { exiting: true }) ==> i == shown_between(stage, input).len()
                - 1 && stage_after(stage, input) == Stage::End,
{
}

/// "Monitoring started." is said exactly when observing starts.
pub proof fn law_start_is_announced(stage: Stage, input: Input)
    requires
        fits(stage, input),
    ensures
        stage_after(stage, input) == Stage::Start <==> shown_between(stage, input).contains(
            ShownView::Line("Monitoring started."@),
        ),
{
    reveal_strlit("Monitoring started.");
    reveal_strlit("✓ Accessibility permission granted.");
    reveal_strlit(
        "⚠️ Accessibility permission required. System Settings → Privacy & Security → Accessibility.",
    );
    let row = shown_between(stage, input);
    let started = ShownView::Line("Monitoring started."@);
    assert("Monitoring started."@[0] == 'M');
    assert("✓ Accessibility permission granted."@[0] != 'M');
    assert("⚠️ Accessibility permission required. System Settings → Privacy & Security → Accessibility."@[0]
        != 'M');
    if stage_after(stage, input) == Stage::Start {
        if stage == (Stage::Look { first: true }) {
            assert(row[0] == started);
        } else {
            assert(row[2] == started);
        }
    } else if row.contains(started) {
        let i = choose|i: int| 0 <= i < row.len() && row[i] == started;
        assert(i == 0 || i == 1);
    }
}

// ---------------------------------------------------------------------------
// Whole sessions
// ---------------------------------------------------------------------------

/// Whether the stage behind one follows from it.
pub open spec fn follows(stages: Seq<Stage>, inputs: Seq<Input>, i: int) -> bool {
    fits(stages[i], inputs[i]) && stages[i + 1] == stage_after(stages[i], inputs[i])
}

/// Whether stages follow one another from the first one on.
pub open spec fn is_session(stages: Seq<Stage>, inputs: Seq<Input>) -> bool {
    &&& stages.len() > 0
    &&& stages[0] == (Stage::Look { first: true })
    &&& stages.len() <= inputs.len() + 1
    &&& forall|i: int| 0 <= i && i + 1 < stages.len() ==> #[trigger] follows(stages, inputs, i)
}

/// Whether the permission was found granted at one stage, and the session has
/// done nothing but observe since.
pub open spec fn granted_since(stages: Seq<Stage>, inputs: Seq<Input>, i: int, at: int) -> bool {
    &&& 0 <= i < at
    &&& stages[i] is Look
    &&& inputs[i] == Input::Trusted(true)
    &&& forall|j: int|
        i < j <= at ==> (#[trigger] stages[j] == Stage::Start || stages[j] == Stage::Listen)
}

/// Nothing is observed without the permission: where a session listens, the
/// permission was granted when it was last looked at.
pub proof fn law_listening_needs_the_permission(
    stages: Seq<Stage>,
    inputs: Seq<Input>,
    at: int,
)
    requires
        is_session(stages, inputs),
        0 <= at < stages.len(),
        stages[at] == Stage::Listen || stages[at] == Stage::Start,
    ensures
        exists|i: int| #[trigger] granted_since(stages, inputs, i, at),
    decreases at,
{
    assert(follows(stages, inputs, at - 1));
    if stages[at - 1] is Look {
        assert(granted_since(stages, inputs, at - 1, at));
    } else {
        law_listening_needs_the_permission(stages, inputs, at - 1);
        let i = choose|i: int| #[trigger] granted_since(stages, inputs, i, at - 1);
        assert(granted_since(stages, inputs, i, at));
    }
}

/// A session ends only when the window asks for it or is gone, or when the
/// engine calls for it.
pub proof fn law_sessions_end_on_demand(stage: Stage, input: Input)
    requires
        stage != Stage::End,
        fits(stage, input),
        stage_after(stage, input) == Stage::End,
    ensures
        input == Input::WindowGone || input == (Input::Acted { quit: true }) || input
            == Input::Observed(Next::Quit),
{
}

/// With the permission a session starts observing and then listens; without it,
/// it looks again, at once after the first look and after a wait from then on.
pub proof fn law_the_permission_is_awaited(first: bool)
    ensures
        stage_after(Stage::Look { first }, Input::Trusted(true)) == Stage::Start,
        stage_after(Stage::Start, Input::Started) == Stage::Listen,
        stage_after(Stage::Look { first: true }, Input::Trusted(false)) == (Stage::Look {
            first: false,
        }),
        stage_after(Stage::Look { first: false }, Input::Trusted(false)) == Stage::Idle,
        stage_after(Stage::Idle, Input::Elapsed) == (Stage::Look { first: false }),
        stage_after(Stage::Idle, Input::Acted { quit: false }) == (Stage::Look { first: false }),
{
}

/// A session that listens goes on listening, whatever was observed or done. It
/// looks at the permission anew, as for the first time, where the observer has
/// stopped or the permission is gone.
pub proof fn law_listening_goes_on()
    ensures
        stage_after(Stage::Listen, Input::Observed(Next::Continue)) == Stage::Listen,
        stage_after(Stage::Listen, Input::Acted { quit: false }) == Stage::Listen,
        stage_after(Stage::Listen, Input::ObserverGone) == (Stage::Look { first: true }),
        stage_after(Stage::Listen, Input::Observed(Next::WaitForPermission)) == (Stage::Look {
            first: true,
        }),
{
}

/// A session ends where the window asks for it or is gone, at every stage, and
/// where the engine calls for it. What has ended stays so.
pub proof fn law_an_end_is_heeded(stage: Stage, input: Input)
    ensures
        stage_after(stage, Input::WindowGone) == Stage::End,
        stage_after(stage, Input::Acted { quit: true }) == Stage::End,
        stage_after(Stage::Listen, Input::Observed(Next::Quit)) == Stage::End,
        stage_after(Stage::End, input) == Stage::End,
{
}

/// A missing permission is told once: the first look says what to do, later ones
/// say nothing, and the look that finds it granted says so.
pub proof fn law_a_missing_permission_is_told_once()
    ensures
        shown_between(Stage::Look { first: true }, Input::Trusted(false)) == seq![
            ShownView::Line(
                "⚠️ Accessibility permission required. System Settings → Privacy & Security → Accessibility."@,
            ),
            ShownView::Status { exiting: false },
        ],
        shown_between(Stage::Look { first: false }, Input::Trusted(false)) == Seq::<
            ShownView,
        >::empty(),
        shown_between(Stage::Look { first: false }, Input::Trusted(true)) == seq![
            ShownView::Line("✓ Accessibility permission granted."@),
            ShownView::Status { exiting: false },
        ] + shown_between(Stage::Look { first: true }, Input::Trusted(true)),
        shown_between(Stage::Look { first: true }, Input::Trusted(true)) == seq![
            ShownView::Line("Monitoring started."@),
            ShownView::Status { exiting: false },
        ],
{
    assert(shown_between(Stage::Look { first: false }, Input::Trusted(true)) =~= seq![
        ShownView::Line("✓ Accessibility permission granted."@),
        ShownView::Status { exiting: false },
    ] + shown_between(Stage::Look { first: true }, Input::Trusted(true)));
}

/// How to grant the permission is shown exactly where the engine ends the
/// session for want of it.
pub proof fn law_permission_screen_comes_with_the_end(stage: Stage, input: Input)
    requires
        fits(stage, input),
    ensures
        shown_between(stage, input).contains(ShownView::PermissionScreen) <==> input
            == Input::Observed(Next::Quit),
        input == Input::Elapsed ==> shown_between(stage, input) == seq![
            ShownView::Status { exiting: false },
        ],
{
    let row = shown_between(stage, input);
    if input == Input::Observed(Next::Quit) {
        assert(row[0] == ShownView::PermissionScreen);
    }
}

/// What the engine and the window do while a session listens or idles shows
/// nothing of the session itself, until it ends.
pub proof fn law_going_on_shows_nothing(stage: Stage, input: Input)
    requires
        fits(stage, input),
        input is Observed || input is Acted || input == Input::ObserverGone || input
            == Input::Started,
        stage_after(stage, input) != Stage::End,
    ensures
        shown_between(stage, input).len() == 0,
{
}

/// What is shown is said as it is, and a row of it in its order.
pub proof fn law_shown_says_what_it_holds(row: Seq<Shown>, i: int)
    requires
        0 <= i < row.len(),
    ensures
        shown_views(row).len() == row.len(),
        match row[i] {
            Shown::Line(line) => shown_views(row)[i] == ShownView::Line(line@),
            Shown::Status { exiting } => shown_views(row)[i] == (ShownView::Status { exiting }),
            Shown::PermissionScreen => shown_views(row)[i] == ShownView::PermissionScreen,
        },
{
}

} // verus!
