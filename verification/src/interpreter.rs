//! The event interpreter: how one frame's input events change the buffer,
//! the cursor, the clipboard output and keyboard focus.
//!
//! Events apply in delivery order.  Enter in a single-line widget and
//! Escape surrender focus and stop the iteration: no later event of the
//! frame is processed.

use vstd::prelude::*;

use crate::editing::insert_text;
use crate::editing::lemma_key_press_cursor_in_text;
use crate::editing::on_key_press;
use crate::editing::spec_inserted;
use crate::editing::spec_key_press;
use crate::events::Event;
use crate::events::Key;

verus! {

/// The interpreter's view of the widget while a frame's events apply.
pub struct EditState {
    pub text: Seq<char>,
    pub cursor: nat,
    pub focused: bool,
    pub copied: Option<Seq<char>>,
}

/// Text input that is exactly a newline is ignored: `"\n"` and `"\r"` are
/// the Enter key's business.
pub open spec fn is_lone_newline(t: Seq<char>) -> bool {
    t == seq!['\n'] || t == seq!['\r']
}

/// One event applied to the interpreter state.  An insertion whose result
/// could not even be addressed is ignored, like any other input the widget
/// cannot honour.
pub open spec fn spec_apply_event(st: EditState, ev: Event, multiline: bool) -> EditState {
    match ev {
        Event::Copy => EditState { copied: Some(st.text), ..st },
        Event::Cut => EditState { copied: Some(st.text), ..st },
        Event::Text(t) => if is_lone_newline(t@) || st.text.len() + t@.len() > usize::MAX {
            st
        } else {
            EditState {
                text: spec_inserted(st.text, st.cursor, t@),
                cursor: st.cursor + t@.len(),
                ..st
            }
        },
        Event::Key { key: Key::Enter, pressed: true } => if multiline {
            if st.text.len() < usize::MAX {
                EditState {
                    text: spec_inserted(st.text, st.cursor, seq!['\n']),
                    cursor: st.cursor + 1,
                    ..st
                }
            } else {
                st
            }
        } else {
            EditState { focused: false, ..st }
        },
        Event::Key { key: Key::Escape, pressed: true } => EditState { focused: false, ..st },
        Event::Key { key, pressed: true } => {
            let r = spec_key_press(st.cursor, st.text, key);
            EditState { cursor: r.0, text: r.1, ..st }
        },
        _ => st,
    }
}

/// The frame's events applied in order, stopping as soon as focus is
/// surrendered.
pub open spec fn spec_run(st: EditState, evs: Seq<Event>, multiline: bool) -> EditState
    decreases evs.len(),
{
    if evs.len() == 0 || !st.focused {
        st
    } else {
        spec_run(spec_apply_event(st, evs[0], multiline), evs.skip(1), multiline)
    }
}

/// The cursor the interpreter starts from: the saved one, defaulted to the
/// end of the text when absent, and clamped into the text.
pub open spec fn spec_initial_cursor(text: Seq<char>, saved: Option<usize>) -> nat {
    match saved {
        Option::None => text.len(),
        Option::Some(c) => if c as nat <= text.len() {
            c as nat
        } else {
            text.len()
        },
    }
}

/// The interpreter state a focused frame starts from.
pub open spec fn spec_start(text: Seq<char>, saved: Option<usize>) -> EditState {
    EditState {
        text,
        cursor: spec_initial_cursor(text, saved),
        focused: true,
        copied: Option::None,
    }
}

/// The characters a clipboard value stands for.
pub open spec fn copied_view(copied: Option<String>) -> Option<Seq<char>> {
    match copied {
        Option::None => Option::None,
        Option::Some(s) => Option::Some(s@),
    }
}

/// After any one event, the cursor still sits inside the buffer.
pub proof fn lemma_event_keeps_cursor_in_text(st: EditState, ev: Event, multiline: bool)
    requires
        st.cursor <= st.text.len(),
    ensures
        spec_apply_event(st, ev, multiline).cursor <= spec_apply_event(st, ev, multiline).text.len(),
{
    match ev {
        Event::Key { key, pressed: true } => {
            lemma_key_press_cursor_in_text(st.cursor, st.text, key);
        },
        _ => {},
    }
}

/// However a frame's events run, the cursor ends inside the buffer.
pub proof fn lemma_run_keeps_cursor_in_text(st: EditState, evs: Seq<Event>, multiline: bool)
    requires
        st.cursor <= st.text.len(),
    ensures
        spec_run(st, evs, multiline).cursor <= spec_run(st, evs, multiline).text.len(),
    decreases evs.len(),
{
    if evs.len() == 0 || !st.focused {
    } else {
        lemma_event_keeps_cursor_in_text(st, evs[0], multiline);
        lemma_run_keeps_cursor_in_text(spec_apply_event(st, evs[0], multiline), evs.skip(1), multiline);
    }
}

/// Whether `s` holds a line separator.
pub open spec fn has_newline(s: Seq<char>) -> bool {
    exists|j: int| 0 <= j < s.len() && s[j] == '\n'
}

/// Text input that cannot smuggle a newline into a single-line buffer:
/// either ignored outright, or free of `'\n'`.
pub open spec fn event_brings_no_newline(ev: Event) -> bool {
    match ev {
        Event::Text(t) => is_lone_newline(t@) || !has_newline(t@),
        _ => true,
    }
}

proof fn lemma_splice_no_newline(text: Seq<char>, cursor: nat, ins: Seq<char>)
    requires
        cursor <= text.len(),
        !has_newline(text),
        !has_newline(ins),
    ensures
        !has_newline(spec_inserted(text, cursor, ins)),
{
    let r = spec_inserted(text, cursor, ins);
    assert forall|j: int| 0 <= j < r.len() implies r[j] != '\n' by {
        if j < cursor {
            assert(r[j] == text[j]);
        } else if j < cursor + ins.len() {
            assert(r[j] == ins[j - cursor]);
        } else {
            assert(r[j] == text[j - ins.len()]);
        }
    }
}

proof fn lemma_remove_no_newline(text: Seq<char>, i: int)
    requires
        0 <= i < text.len(),
        !has_newline(text),
    ensures
        !has_newline(text.remove(i)),
{
    let r = text.remove(i);
    assert forall|j: int| 0 <= j < r.len() implies r[j] != '\n' by {
        if j < i {
            assert(r[j] == text[j]);
        } else {
            assert(r[j] == text[j + 1]);
        }
    }
}

/// A single-line widget's buffer never gains a newline: lone-newline text
/// input is ignored, and Enter surrenders focus instead of inserting.
pub proof fn lemma_single_line_keeps_newlines_out(st: EditState, evs: Seq<Event>)
    requires
        st.cursor <= st.text.len(),
        !has_newline(st.text),
        forall|k: int| 0 <= k < evs.len() ==> event_brings_no_newline(#[trigger] evs[k]),
    ensures
        !has_newline(spec_run(st, evs, false).text),
    decreases evs.len(),
{
    if evs.len() == 0 || !st.focused {
    } else {
        let applied = spec_apply_event(st, evs[0], false);
        match evs[0] {
            Event::Text(t) => {
                if !is_lone_newline(t@) && st.text.len() + t@.len() <= usize::MAX {
                    lemma_splice_no_newline(st.text, st.cursor, t@);
                }
            },
            Event::Key { key, pressed: true } => {
                match key {
                    Key::Backspace => {
                        if st.cursor > 0 {
                            lemma_remove_no_newline(st.text, st.cursor - 1);
                        }
                    },
                    Key::Delete => {
                        if st.cursor < st.text.len() {
                            lemma_remove_no_newline(st.text, st.cursor as int);
                        }
                    },
                    _ => {},
                }
            },
            _ => {},
        }
        lemma_event_keeps_cursor_in_text(st, evs[0], false);
        assert forall|k: int| 0 <= k < evs.skip(1).len() implies event_brings_no_newline(
            #[trigger] evs.skip(1)[k],
        ) by {
            assert(evs.skip(1)[k] == evs[k + 1]);
        }
        lemma_single_line_keeps_newlines_out(applied, evs.skip(1));
    }
}

/// What one frame's event processing produced.
pub struct EventsOutcome {
    /// Where the cursor ended, inside the final text.
    pub cursor: usize,
    /// Whether the widget still holds keyboard focus.
    pub focused: bool,
    /// What was copied to the clipboard output, if anything.
    pub copied: Option<String>,
}

/// Apply a frame's events to the buffer.  The saved cursor is defaulted to
/// the end of the text when absent and clamped into the text; the events
/// then run in order until one of them surrenders focus.
pub fn process_events(
    text: &mut String,
    saved_cursor: Option<usize>,
    events: &Vec<Event>,
    multiline: bool,
) -> (out: EventsOutcome)
    ensures
        ({
            let r = spec_run(spec_start(old(text)@, saved_cursor), events@, multiline);
            &&& final(text)@ == r.text
            &&& out.cursor as nat == r.cursor
            &&& out.focused == r.focused
            &&& copied_view(out.copied) == r.copied
        }),
        out.cursor as nat <= final(text)@.len(),
{
    let n: usize = text.as_str().unicode_len();
    let mut cursor: usize = match saved_cursor {
        None => n,
        Some(c) => if c <= n {
            c
        } else {
            n
        },
    };
    let mut focused: bool = true;
    let mut copied: Option<String> = None;
    let ghost start = spec_start(text@, saved_cursor);
    let mut i: usize = 0;
    proof {
        assert(events@.skip(0) =~= events@);
        assert(EditState {
            text: text@,
            cursor: cursor as nat,
            focused: true,
            copied: copied_view(copied),
        } == start);
    }
    loop
        invariant_except_break
            i <= events@.len(),
            cursor as nat <= text@.len(),
            focused,
            spec_run(
                EditState {
                    text: text@,
                    cursor: cursor as nat,
                    focused: true,
                    copied: copied_view(copied),
                },
                events@.skip(i as int),
                multiline,
            ) == spec_run(start, events@, multiline),
        ensures
            cursor as nat <= text@.len(),
            (EditState {
                text: text@,
                cursor: cursor as nat,
                focused,
                copied: copied_view(copied),
            }) == spec_run(start, events@, multiline),
        decreases events@.len() - i,
    {
        if i >= events.len() {
            proof {
                assert(events@.skip(i as int) =~= Seq::<Event>::empty());
            }
            break;
        }
        let ghost pre = EditState {
            text: text@,
            cursor: cursor as nat,
            focused: true,
            copied: copied_view(copied),
        };
        let ghost ev_g = events@[i as int];
        proof {
            assert(events@.skip(i as int)[0] == ev_g);
            assert(events@.skip(i as int).skip(1) =~= events@.skip(i as int + 1));
            assert(spec_run(pre, events@.skip(i as int), multiline) == spec_run(
                spec_apply_event(pre, ev_g, multiline),
                events@.skip(i as int + 1),
                multiline,
            ));
        }
        let ev = &events[i];
        match ev {
            Event::Copy => {
                copied = Some(text.clone());
            },
            Event::Cut => {
                copied = Some(text.clone());
            },
            Event::Text(t) => {
                let t_len: usize = t.as_str().unicode_len();
                let is_nl: bool = if t_len == 1 {
                    let c0 = t.as_str().get_char(0);
                    c0 == '\n' || c0 == '\r'
                } else {
                    false
                };
                proof {
                    assert(seq!['\n'].len() == 1 && seq!['\n'][0] == '\n');
                    assert(seq!['\r'].len() == 1 && seq!['\r'][0] == '\r');
                    if t_len == 1 {
                        if t@[0] == '\n' {
                            assert(t@ =~= seq!['\n']);
                        }
                        if t@[0] == '\r' {
                            assert(t@ =~= seq!['\r']);
                        }
                    }
                    assert(is_nl == is_lone_newline(t@));
                }
                if !is_nl {
                    let len_now: usize = text.as_str().unicode_len();
                    if t_len <= usize::MAX - len_now {
                        insert_text(&mut cursor, text, t.as_str());
                    }
                }
            },
            Event::Key { key: Key::Enter, pressed: true } => {
                if multiline {
                    let len_now: usize = text.as_str().unicode_len();
                    if len_now < usize::MAX {
                        proof {
                            reveal_strlit("\n");
                            assert(("\n")@ =~= seq!['\n']);
                        }
                        insert_text(&mut cursor, text, "\n");
                    }
                } else {
                    // input commonly ends with Enter: give up focus and stop
                    focused = false;
                    proof {
                        let applied = spec_apply_event(pre, ev_g, multiline);
                        assert(spec_run(applied, events@.skip(i as int + 1), multiline)
                            == applied);
                    }
                    break;
                }
            },
            Event::Key { key: Key::Escape, pressed: true } => {
                focused = false;
                proof {
                    let applied = spec_apply_event(pre, ev_g, multiline);
                    assert(spec_run(applied, events@.skip(i as int + 1), multiline) == applied);
                }
                break;
            },
            Event::Key { key, pressed: true } => {
                on_key_press(&mut cursor, text, *key);
            },
            Event::Key { key: _, pressed: false } => {},
        }
        proof {
            assert(EditState {
                text: text@,
                cursor: cursor as nat,
                focused: true,
                copied: copied_view(copied),
            } == spec_apply_event(pre, ev_g, multiline));
        }
        i += 1;
    }
    EventsOutcome { cursor, focused, copied }
}

} // verus!
