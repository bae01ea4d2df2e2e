//! One frame of the widget: focus arbitration, event interpretation, and
//! the write-back of the persistent state.
//!
//! Everything here works on plain values.  The caller resolves the widget's
//! identity, lays the text out, registers the interaction rectangle and
//! paints; this module decides what the frame does to the text, the cursor
//! and keyboard focus, and reports what the caller must paint and return.

use vstd::prelude::*;

use crate::events::Event;
use crate::focus::FocusRegistry;
use crate::focus::spec_surrender;
use crate::interpreter::EventsOutcome;
use crate::interpreter::copied_view;
use crate::interpreter::process_events;
use crate::interpreter::spec_run;
use crate::interpreter::spec_start;
use crate::store::State;
use crate::store::StateStore;

verus! {

/// What the widget learned before its events run: the interaction probe's
/// answer for its rectangle, the frame's pointer state, and the events.
pub struct FrameInput {
    /// The widget's own rectangle was clicked this frame.
    pub clicked: bool,
    /// The pointer is over the widget's rectangle.
    pub hovered: bool,
    /// A click happened somewhere in the UI this frame.
    pub any_click: bool,
    /// A pointer button went down somewhere in the UI this frame.
    pub any_press: bool,
    /// Where a click landed, as the character index nearest the pointer in
    /// the laid-out text; absent when no pointer position is available.
    pub click_char_idx: Option<usize>,
    /// The frame's input events, in delivery order.
    pub events: Vec<Event>,
}

/// What one frame decided; the caller paints and returns accordingly.
pub struct FrameOutput {
    /// Focus was held when the frame began and is gone now: the caller's
    /// signal to commit the edited value.
    pub lost_kb_focus: bool,
    /// The widget holds keyboard focus as the frame ends, so a caret is due.
    pub has_focus: bool,
    /// The cursor that was saved for the next frame.
    pub cursor: Option<usize>,
    /// Text for the clipboard output, when an event copied.
    pub copied: Option<String>,
    /// The text may have changed: lay it out again before painting, so the
    /// caret renders at its new position without a one-frame lag.
    pub relayout: bool,
    /// Show the text-caret pointer icon: the widget is hovered and enabled.
    pub text_cursor_icon: bool,
}

/// Keyboard focus after the pointer phase: a click on an enabled widget
/// takes focus; a click or press elsewhere gives it up; a disabled widget
/// always gives it up.
pub open spec fn spec_pointer_focus(
    focus: Option<u64>,
    id: u64,
    enabled: bool,
    input: FrameInput,
) -> Option<u64> {
    let afterwards = if input.clicked && enabled {
        Option::Some(id)
    } else if input.any_click || (input.any_press && !input.hovered) {
        spec_surrender(focus, id)
    } else {
        focus
    };
    if !enabled {
        spec_surrender(afterwards, id)
    } else {
        afterwards
    }
}

/// The saved cursor after the pointer phase: a click on an enabled widget
/// with a known pointer position moves the cursor there.
pub open spec fn spec_pointer_cursor(
    saved: Option<usize>,
    enabled: bool,
    input: FrameInput,
) -> Option<usize> {
    if input.clicked && enabled && input.click_char_idx is Some {
        input.click_char_idx
    } else {
        saved
    }
}

/// Everything one frame decides, from the state at entry.
pub struct FrameSpec {
    /// Who holds keyboard focus as the frame ends.
    pub focus: Option<u64>,
    /// The cursor saved for the next frame.
    pub cursor: Option<usize>,
    /// The buffer as the frame ends.
    pub text: Seq<char>,
    /// What was copied to the clipboard output.
    pub copied: Option<Seq<char>>,
    /// The events ran, so the text may have changed.
    pub ran: bool,
    /// Focus was held at entry and is not held at exit.
    pub lost: bool,
}

/// One frame of the widget over plain values: the pointer phase, then —
/// if the widget is focused and enabled — the event interpreter, whose
/// surrender of focus reaches the registry.
pub open spec fn spec_frame(
    focus: Option<u64>,
    saved: State,
    text: Seq<char>,
    id: u64,
    multiline: bool,
    enabled: bool,
    input: FrameInput,
) -> FrameSpec {
    let focus1 = spec_pointer_focus(focus, id, enabled, input);
    let cursor1 = spec_pointer_cursor(saved.cursor, enabled, input);
    let ran = focus1 == Some(id) && enabled;
    if ran {
        let r = spec_run(spec_start(text, cursor1), input.events@, multiline);
        let focus2 = if r.focused {
            focus1
        } else {
            spec_surrender(focus1, id)
        };
        FrameSpec {
            focus: focus2,
            cursor: Some(r.cursor as usize),
            text: r.text,
            copied: r.copied,
            ran: true,
            lost: focus == Some(id) && focus2 != Some(id),
        }
    } else {
        FrameSpec {
            focus: focus1,
            cursor: cursor1,
            text,
            copied: Option::None,
            ran: false,
            lost: focus == Some(id) && focus1 != Some(id),
        }
    }
}

/// Run one frame of the widget.
///
/// The caller has loaded nothing and saves nothing: the frame reads the
/// state of `id` from the store, arbitrates focus, runs the events on the
/// buffer when focused and enabled, and writes the state back
/// unconditionally, so the cursor survives losing and regaining focus.
pub fn frame(
    store: &mut StateStore,
    registry: &mut FocusRegistry,
    id: u64,
    text: &mut String,
    multiline: bool,
    enabled: bool,
    input: &FrameInput,
) -> (out: FrameOutput)
    ensures
        ({
            let r = spec_frame(
                old(registry).focus,
                old(store).spec_get(id),
                old(text)@,
                id,
                multiline,
                enabled,
                *input,
            );
            &&& final(registry).focus == r.focus
            &&& final(text)@ == r.text
            &&& final(store).spec_get(id) == (State { cursor: r.cursor })
            &&& final(store).contains(id)
            &&& out.cursor == r.cursor
            &&& copied_view(out.copied) == r.copied
            &&& out.relayout == r.ran
            &&& out.lost_kb_focus == r.lost
        }),
        out.lost_kb_focus == (old(registry).focus == Option::Some(id) && final(registry).focus
            != Option::Some(id)),
        out.has_focus == (final(registry).focus == Option::Some(id)),
        out.text_cursor_icon == (input.hovered && enabled),
        forall|other: u64|
            other != id ==> #[trigger] final(store).spec_get(other) == old(store).spec_get(other),
        forall|other: u64|
            other != id ==> #[trigger] final(store).contains(other) == old(store).contains(other),
{
    let mut state = store.get(id);
    let had_focus = registry.has_kb_focus(id);

    if input.clicked && enabled {
        registry.request_kb_focus(id);
        if let Some(char_idx) = input.click_char_idx {
            state.cursor = Some(char_idx);
        }
    } else if input.any_click || (input.any_press && !input.hovered) {
        // the user clicked or pressed somewhere else
        registry.surrender_kb_focus(id);
    }
    if !enabled {
        registry.surrender_kb_focus(id);
    }

    let mut copied: Option<String> = None;
    let mut relayout = false;
    if registry.has_kb_focus(id) && enabled {
        let outcome: EventsOutcome = process_events(text, state.cursor, &input.events, multiline);
        state.cursor = Some(outcome.cursor);
        if !outcome.focused {
            registry.surrender_kb_focus(id);
        }
        copied = outcome.copied;
        relayout = true;
    }
    store.insert(id, state);

    let has_focus = registry.has_kb_focus(id);
    FrameOutput {
        lost_kb_focus: had_focus && !has_focus,
        has_focus,
        cursor: state.cursor,
        copied,
        relayout,
        text_cursor_icon: input.hovered && enabled,
    }
}

/// Two clicks at the same position give the same cursor, whatever was
/// saved before either frame.
pub proof fn lemma_click_twice_same_cursor(
    focus_a: Option<u64>,
    saved_a: State,
    focus_b: Option<u64>,
    saved_b: State,
    text: Seq<char>,
    id: u64,
    multiline: bool,
    input: FrameInput,
)
    requires
        input.clicked,
        input.click_char_idx is Some,
        input.events@.len() == 0,
    ensures
        spec_frame(focus_a, saved_a, text, id, multiline, true, input).cursor == spec_frame(
            focus_b,
            saved_b,
            text,
            id,
            multiline,
            true,
            input,
        ).cursor,
{
}

/// A frame with no pointer activity and no events leaves the text, the
/// focus and every stored state as they were.  (A focused widget must
/// already have a cursor inside the text: the frame would otherwise
/// default and clamp it, which is a state change.)
pub proof fn lemma_quiet_frame_changes_nothing(
    focus: Option<u64>,
    saved: State,
    text: Seq<char>,
    id: u64,
    multiline: bool,
    enabled: bool,
    input: FrameInput,
)
    requires
        !input.clicked,
        !input.any_click,
        !input.any_press,
        input.events@.len() == 0,
        !enabled ==> focus != Some(id),
        (focus == Some(id) && enabled) ==> match saved.cursor {
            Option::Some(c) => c as nat <= text.len(),
            Option::None => false,
        },
    ensures
        ({
            let r = spec_frame(focus, saved, text, id, multiline, enabled, input);
            &&& r.focus == focus
            &&& r.cursor == saved.cursor
            &&& r.text == text
            &&& !r.lost
        }),
{
}

} // verus!
