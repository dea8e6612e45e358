//! What reflection is for: every session since the watermark is looked back on.

use crate::effect::{EffectView, EventView, Said};
use crate::json::Tree;
use crate::number::{decimal, is_digit, lemma_all_digits, number};
use crate::reflect::{
    is_new, next_session, reflect_after, reflect_next, unseen, watermark_of, ReflectStage,
    ReflectState, ReflectStepView,
};
use crate::run::or_empty;
use crate::run_laws::{shown_part, within};
use crate::text::{lemma_found, lemma_no_cut_last_char, trimmed, white};
use crate::tool::{law_range_reads_back, path_range, tool_call};
use crate::trajectory::summary;
use vstd::prelude::*;
use vstd::string::*;

verus! {

/// The log of the session `name`.
pub open spec fn log_of_session(name: Seq<char>) -> Seq<char> {
    ".evo/sessions"@ + "/"@ + name + "/traj.jsonl"@
}

/// The question about the session `name` whose log holds `raw`.
pub open spec fn session_question(name: Seq<char>, raw: Seq<char>) -> Said {
    Said {
        role: "user"@,
        content: "Session "@ + decimal(number(name, u64::MAX as nat)->0)
            + " summary (stripped):\n"@ + summary(raw) + "\n\nFull traj at: "@ + log_of_session(
            name,
        ) + "\nUse <tool name=\"read_file\">"@ + log_of_session(name)
            + "</tool> if you need more detail.\n\nWhat is the single most important improvement?"@,
    }
}

/// Among `events`, the log of the session `name` was read, and the model was then asked about it,
/// with the summary of what was read.
pub open spec fn looked_at(events: Seq<EventView>, name: Seq<char>, n: int) -> bool {
    let raw = match events[n]->Text_0 {
        Ok(text) => text,
        Err(_) => seq![],
    };
    &&& reflect_after(events.take(n)) matches ReflectStepView::Act(_, read) && read == (
    EffectView::ReadText { path: log_of_session(name) })
    &&& reflect_after(events.take(n + 1)) matches ReflectStepView::Act(s, ask) && ask == (
    EffectView::Ask { talk: seq![session_question(name, raw)], system: s.system })
}

/// The model was asked about the session `name`.
pub open spec fn was_looked_at(events: Seq<EventView>, name: Seq<char>) -> bool {
    exists|n: int| 0 <= n < events.len() && #[trigger] looked_at(events, name, n)
}

/// The sessions that reflection has to look back on, by the first two answers.
pub open spec fn to_look_at(events: Seq<EventView>) -> Seq<Seq<char>> {
    unseen(events[1]->Names_0, watermark_of(events[0]->Text_0))
}

/// How far reflection has come.
spec fn on_track(s: ReflectState, effect: EffectView, events: Seq<EventView>) -> bool {
    match s.stage {
        ReflectStage::Watermark => events.len() == 0,
        ReflectStage::Listing => events.len() == 1 && s.watermark == watermark_of(
            events[0]->Text_0,
        ),
        ReflectStage::Nothing => events.len() == 2 && to_look_at(events).len() == 0,
        ReflectStage::Prompt => events.len() == 2 && s.sessions == to_look_at(events) && s.at == 0,
        _ => {
            &&& events.len() > 2
            &&& s.sessions == to_look_at(events)
            &&& 0 < s.at <= s.sessions.len()
            &&& forall|k: int|
                0 <= k < s.at - 1 ==> was_looked_at(events, #[trigger] s.sessions[k])
            &&& s.stage == ReflectStage::Session ==> {
                let name = s.sessions[s.at - 1];
                &&& effect == (EffectView::ReadText { path: log_of_session(name) })
                &&& s.path == log_of_session(name)
                &&& number(name, u64::MAX as nat) == Some(s.ts as nat)
            }
            &&& s.stage != ReflectStage::Session ==> was_looked_at(events, s.sessions[s.at - 1])
        },
    }
}

/// Every session that there was to look at was looked at.
pub open spec fn all_looked_at(events: Seq<EventView>) -> bool {
    forall|k: int|
        0 <= k < to_look_at(events).len() ==> was_looked_at(events, #[trigger] to_look_at(events)[k])
}

/// What was looked at stays looked at.
proof fn lemma_stays_looked_at(events: Seq<EventView>, name: Seq<char>)
    requires
        events.len() > 0,
        was_looked_at(events.drop_last(), name),
    ensures
        was_looked_at(events, name),
{
    let before = events.drop_last();
    let n = choose|n: int| 0 <= n < before.len() && #[trigger] looked_at(before, name, n);
    assert(before.take(n) =~= events.take(n));
    assert(before.take(n + 1) =~= events.take(n + 1));
    assert(before[n] == events[n]);
    assert(looked_at(events, name, n));
}

proof fn lemma_all_stay(events: Seq<EventView>, names: Seq<Seq<char>>, upto: int)
    requires
        events.len() > 0,
        forall|k: int| 0 <= k < upto ==> was_looked_at(events.drop_last(), #[trigger] names[k]),
    ensures
        forall|k: int| 0 <= k < upto ==> was_looked_at(events, #[trigger] names[k]),
{
    assert forall|k: int| 0 <= k < upto implies was_looked_at(events, #[trigger] names[k]) by {
        lemma_stays_looked_at(events, names[k]);
    }
}

/// The sessions that are picked are those that are listed and began after the watermark.
pub proof fn law_new_sessions_are_picked(names: Seq<Seq<char>>, name: Seq<char>, watermark: u64)
    ensures
        unseen(names, watermark).contains(name) <==> names.contains(name) && (number(
            name,
            u64::MAX as nat,
        ) matches Some(t) && t > watermark),
    decreases names.len(),
{
    reveal(Seq::filter);
    let picked = unseen(names, watermark);
    if names.len() > 0 {
        let front = names.drop_last();
        law_new_sessions_are_picked(front, name, watermark);
        assert(names =~= front.push(names.last()));
        assert(names.contains(name) <==> front.contains(name) || names.last() == name) by {
            if front.contains(name) {
                let i = choose|i: int| 0 <= i < front.len() && front[i] == name;
                assert(names[i] == name);
            }
            if names.contains(name) && names.last() != name {
                let i = choose|i: int| 0 <= i < names.len() && names[i] == name;
                assert(front[i] == name);
            }
            if names.last() == name {
                assert(names[names.len() - 1] == name);
            }
        }
        let fewer = unseen(front, watermark);
        if is_new(names.last(), watermark) {
            assert(picked == fewer.push(names.last()));
            assert(picked.contains(name) <==> fewer.contains(name) || names.last() == name) by {
                if fewer.contains(name) {
                    let i = choose|i: int| 0 <= i < fewer.len() && fewer[i] == name;
                    assert(picked[i] == name);
                }
                if picked.contains(name) && names.last() != name {
                    let i = choose|i: int| 0 <= i < picked.len() && picked[i] == name;
                    assert(fewer[i] == name);
                }
                if names.last() == name {
                    assert(picked[picked.len() - 1] == name);
                }
            }
        } else {
            assert(picked == fewer);
        }
    }
}

proof fn lemma_picked_is_new(names: Seq<Seq<char>>, watermark: u64, k: int)
    requires
        0 <= k < unseen(names, watermark).len(),
    ensures
        number(unseen(names, watermark)[k], u64::MAX as nat) is Some,
{
    let name = unseen(names, watermark)[k];
    assert(unseen(names, watermark).contains(name));
    law_new_sessions_are_picked(names, name, watermark);
}

/// The next session has its turn, or none is left and all were looked at.
proof fn lemma_next_is_on_track(s: ReflectState, events: Seq<EventView>, step: ReflectStepView)
    requires
        events.len() > 2,
        s.sessions == to_look_at(events),
        s.at <= s.sessions.len(),
        forall|k: int| 0 <= k < s.at ==> was_looked_at(events, #[trigger] s.sessions[k]),
        step == next_session(s),
    ensures
        match step {
            ReflectStepView::Over => all_looked_at(events),
            ReflectStepView::Act(next, effect) => on_track(next, effect, events),
        },
{
    if s.at < s.sessions.len() {
        lemma_picked_is_new(
            events[1]->Names_0,
            watermark_of(events[0]->Text_0),
            s.at as int,
        );
    }
}

/// Once the log of a session is read, the model is asked about it, and so it is looked at.
proof fn lemma_asking_is_on_track(s: ReflectState, effect: EffectView, events: Seq<EventView>)
    requires
        events.len() > 2,
        reflect_after(events.drop_last()) == ReflectStepView::Act(s, effect),
        on_track(s, effect, events.drop_last()),
        to_look_at(events.drop_last()) == to_look_at(events),
        s.stage == ReflectStage::Session,
    ensures
        reflect_next(s, events.last()) matches ReflectStepView::Act(next, taken) && on_track(
            next,
            taken,
            events,
        ),
{
    let before = events.drop_last();
    let last = events.last();
    let step = reflect_next(s, last);
    assert(reflect_after(events) == step);
    lemma_all_stay(events, s.sessions, s.at - 1);
    let n = events.len() - 1;
    let name = s.sessions[s.at - 1];
    assert(events.take(n) =~= before);
    assert(events.take(n + 1) =~= events);
    assert(events[n] == last);
    let next = step->Act_0;
    let raw = match last->Text_0 {
        Ok(text) => text,
        Err(_) => seq![],
    };
    assert(next.talk =~= seq![session_question(name, raw)]);
    assert(looked_at(events, name, n));
    assert(was_looked_at(events, name));
}

/// Once a session is looked at, it stays so, and when its turn is over the next has its own.
proof fn lemma_later_is_on_track(s: ReflectState, effect: EffectView, events: Seq<EventView>)
    requires
        events.len() > 2,
        on_track(s, effect, events.drop_last()),
        to_look_at(events.drop_last()) == to_look_at(events),
        s.stage != ReflectStage::Watermark,
        s.stage != ReflectStage::Listing,
        s.stage != ReflectStage::Nothing,
        s.stage != ReflectStage::Prompt,
        s.stage != ReflectStage::Session,
    ensures
        match reflect_next(s, events.last()) {
            ReflectStepView::Over => all_looked_at(events),
            ReflectStepView::Act(next, taken) => on_track(next, taken, events),
        },
{
    let last = events.last();
    let step = reflect_next(s, last);
    lemma_all_stay(events, s.sessions, s.at - 1);
    lemma_stays_looked_at(events, s.sessions[s.at - 1]);
    assert forall|k: int| 0 <= k < s.at implies was_looked_at(
        events,
        #[trigger] s.sessions[k],
    ) by {
        if k == s.at - 1 {
        }
    }
    if s.stage == ReflectStage::Failed || s.stage == ReflectStage::Marking {
        lemma_next_is_on_track(s, events, step);
    } else if s.stage == ReflectStage::Asking {
        if let Ok(reply) = last->Reply_0 {
            let told = ReflectState {
                talk: s.talk.push(Said { role: "assistant"@, content: reply }),
                ..s
            };
            if step == next_session(told) {
                lemma_next_is_on_track(told, events, step);
            }
        }
    }
}

proof fn lemma_reflection_on_track(events: Seq<EventView>)
    ensures
        match reflect_after(events) {
            ReflectStepView::Over => events.len() >= 2 && all_looked_at(events),
            ReflectStepView::Act(s, effect) => on_track(s, effect, events),
        },
    decreases events.len(),
{
    if events.len() > 0 {
        let before = events.drop_last();
        let last = events.last();
        lemma_reflection_on_track(before);
        if before.len() >= 2 {
            assert(before[0] == events[0] && before[1] == events[1]);
            assert(to_look_at(before) == to_look_at(events));
        }
        match reflect_after(before) {
            ReflectStepView::Over => {
                lemma_all_stay(events, to_look_at(events), to_look_at(events).len() as int);
            },
            ReflectStepView::Act(s, effect) => {
                let step = reflect_next(s, last);
                assert(reflect_after(events) == step);
                match s.stage {
                    ReflectStage::Watermark => {
                        assert(events[0] == last);
                    },
                    ReflectStage::Listing => {
                        assert(events[0] == before[0] && events[1] == last);
                    },
                    ReflectStage::Nothing => {},
                    ReflectStage::Prompt => {
                        let told = ReflectState {
                            system: or_empty(last->Text_0),
                            ..s
                        };
                        lemma_next_is_on_track(told, events, step);
                    },
                    ReflectStage::Session => {
                        lemma_asking_is_on_track(s, effect, events);
                    },
                    _ => {
                        lemma_later_is_on_track(s, effect, events);
                    },
                }
            },
        }
    }
}

/// Reflection is over only once the log of every session that began after the watermark has been
/// read and the model has been asked about it, with the summary of its log, whatever the outside
/// answers.
pub proof fn law_every_session_is_looked_at(events: Seq<EventView>, name: Seq<char>)
    requires
        reflect_after(events) == ReflectStepView::Over,
        events[1]->Names_0.contains(name),
        number(name, u64::MAX as nat) matches Some(t) && t > watermark_of(events[0]->Text_0),
    ensures
        events.len() >= 2,
        was_looked_at(events, name),
{
    lemma_reflection_on_track(events);
    let watermark = watermark_of(events[0]->Text_0);
    law_new_sessions_are_picked(events[1]->Names_0, name, watermark);
    let k = choose|k: int| 0 <= k < to_look_at(events).len() && to_look_at(events)[k] == name;
    assert(was_looked_at(events, to_look_at(events)[k]));
}

/// What the first answers lead to: the watermark is read, then the sessions are listed, and where
/// none is new the user is told so and reflection is over; else the system prompt is read, and
/// then the log of the first that is new.
pub proof fn law_reflection_begins(
    mark: Result<Seq<char>, Seq<char>>,
    names: Seq<Seq<char>>,
    prompt: Seq<char>,
)
    ensures
        ({
            let start = reflect_after(seq![]);
            let listing = reflect_next(start->Act_0, EventView::Text(mark));
            let picked = reflect_next(listing->Act_0, EventView::Names(names));
            let fresh = unseen(names, watermark_of(mark));
            let first = reflect_next(picked->Act_0, EventView::Text(Ok(prompt)));
            &&& start->Act_1 == (EffectView::ReadText { path: ".evo/learned_until.txt"@ })
            &&& listing->Act_1 == (EffectView::ListDir { path: ".evo/sessions"@ })
            &&& fresh.len() == 0 ==> picked->Act_1 == (EffectView::Notify {
                text: "No new sessions to reflect on."@,
            }) && reflect_next(picked->Act_0, EventView::Done) == ReflectStepView::Over
            &&& fresh.len() > 0 ==> picked->Act_1 == (EffectView::ReadText {
                path: "src/prompts/"@ + "reflect_system.txt"@,
            }) && first->Act_1 == (EffectView::ReadText { path: log_of_session(fresh[0]) })
                && first->Act_0.system == prompt
        }),
{
}

/// What the watermark tells: the number in the file, whatever white space is round it, and zero
/// where there is no number.
pub proof fn law_watermark_is_read(text: Seq<char>, error: Seq<char>)
    ensures
        number(trimmed(text), u64::MAX as nat) matches Some(t) ==> watermark_of(Ok(text)) == t,
        number(trimmed(text), u64::MAX as nat) is None ==> watermark_of(Ok(text)) == 0,
        watermark_of(Err(error)) == 0,
{
}

/// A suggestion of the model is told to the user and logged, whole, and then the time of the
/// session is written as the watermark. After that the log of the next session is read, where one
/// is left.
pub proof fn law_suggestion_is_taken(s: ReflectState, reply: Seq<char>)
    requires
        s.stage == ReflectStage::Asking,
        reply.len() > 0,
        tool_call(reply) matches Some((name, _)) ==> name != "read_file"@,
    ensures
        ({
            let told = reflect_next(s, EventView::Reply(Ok(reply)));
            let logged = reflect_next(told->Act_0, EventView::Done);
            let folder = reflect_next(logged->Act_0, EventView::Done);
            let marked = reflect_next(folder->Act_0, EventView::Done);
            let next = reflect_next(marked->Act_0, EventView::Done);
            &&& told->Act_1 == (EffectView::Notify {
                text: "Reflection ["@ + decimal(s.ts as nat) + "]: "@ + reply,
            })
            &&& logged->Act_1 == (EffectView::Log {
                kind: "reflect_result"@,
                data: Tree::Text(reply),
            })
            &&& folder->Act_1 == (EffectView::MakeDir { path: ".evo"@ })
            &&& marked->Act_1 == (EffectView::WriteText {
                path: ".evo/learned_until.txt"@,
                text: decimal(s.ts as nat),
            })
            &&& s.at < s.sessions.len() ==> next->Act_1 == (EffectView::ReadText {
                path: log_of_session(s.sessions[s.at as int]),
            }) && next->Act_0.at == s.at + 1 && next->Act_0.sessions == s.sessions
            &&& s.at >= s.sessions.len() ==> next == ReflectStepView::Over
        }),
{
}

/// A session about which the model cannot be asked, or says nothing, leaves the watermark as it
/// is, and the next has its turn.
pub proof fn law_silent_session_is_passed_over(s: ReflectState, error: Seq<char>)
    requires
        s.stage == ReflectStage::Asking,
    ensures
        ({
            let told = reflect_next(s, EventView::Reply(Err(error)));
            let after = reflect_next(told->Act_0, EventView::Done);
            let empty = reflect_next(s, EventView::Reply(Ok(""@)));
            &&& told->Act_1 == (EffectView::Notify {
                text: "Reflection LLM error ["@ + decimal(s.ts as nat) + "]: "@ + error,
            })
            &&& s.at < s.sessions.len() ==> after->Act_1 == (EffectView::ReadText {
                path: log_of_session(s.sessions[s.at as int]),
            }) && empty->Act_1 == after->Act_1
            &&& s.at >= s.sessions.len() ==> after == ReflectStepView::Over && empty
                == ReflectStepView::Over
        }),
{
    reveal_strlit("");
    reveal_strlit("<tool name=\"");
    lemma_found(""@, "<tool name=\""@);
    assert(tool_call(""@) is None);
}

/// When the model wants to see a file, it is read, and the model is asked again, with its reply
/// and the part of the file that it asked for as the last messages.
pub proof fn law_reflection_shows_files(
    s: ReflectState,
    reply: Seq<char>,
    path: Seq<char>,
    content: Seq<char>,
    error: Seq<char>,
)
    requires
        s.stage == ReflectStage::Asking,
        tool_call(reply) == Some(("read_file"@, path)),
        path.len() > 0,
        !white(path[0]),
        !white(path.last()),
        !path.contains(' '),
    ensures
        ({
            let end = if content.len() <= 16000 {
                content.len() as int
            } else {
                16000
            };
            let reading = reflect_next(s, EventView::Reply(Ok(reply)));
            let shown = reflect_next(reading->Act_0, EventView::Text(Ok(content)));
            let failed = reflect_next(reading->Act_0, EventView::Text(Err(error)));
            let heard = s.talk.push(Said { role: "assistant"@, content: reply });
            &&& reading->Act_1 == (EffectView::ReadText { path })
            &&& shown->Act_1 == (EffectView::Ask {
                talk: heard.push(
                    Said {
                        role: "user"@,
                        content: "<tool_result>"@ + shown_part(path, content, 0, end)
                            + "</tool_result>"@,
                    },
                ),
                system: s.system,
            })
            &&& shown->Act_0.stage == ReflectStage::Asking
            &&& shown->Act_0.talk == shown->Act_1->talk
            &&& shown->Act_0.ts == s.ts
            &&& shown->Act_0.at == s.at
            &&& shown->Act_0.sessions == s.sessions
            &&& failed->Act_1 == (EffectView::Ask {
                talk: heard.push(
                    Said {
                        role: "user"@,
                        content: "<tool_result>"@ + ("ERROR: "@ + error) + "</tool_result>"@,
                    },
                ),
                system: s.system,
            })
            &&& failed->Act_0.stage == ReflectStage::Asking
        }),
{
    reveal_strlit(" ");
    assert(" "@ =~= seq![' ']);
    lemma_no_cut_last_char(path, ' ');
    assert(trimmed(path) == path);
    assert(path_range(path) == (path, None::<(nat, nat)>));
}

/// The sessions that are picked keep the order of the list, and each its place in it.
pub proof fn law_sessions_keep_their_order(names: Seq<Seq<char>>, name: Seq<char>, watermark: u64)
    ensures
        unseen(Seq::<Seq<char>>::empty(), watermark).len() == 0,
        unseen(names.push(name), watermark) == if number(name, u64::MAX as nat) matches Some(t) && t
            > watermark {
            unseen(names, watermark).push(name)
        } else {
            unseen(names, watermark)
        },
{
    reveal(Seq::filter);
    assert(names.push(name).drop_last() =~= names);
}

/// The session whose log is read next is the one under way from then on: its time is the one that
/// the model is asked about and that the watermark gets.
pub proof fn law_next_session_is_under_way(s: ReflectState)
    requires
        s.stage == ReflectStage::Marking || s.stage == ReflectStage::Failed,
        s.at < s.sessions.len(),
        number(s.sessions[s.at as int], u64::MAX as nat) is Some,
    ensures
        reflect_next(s, EventView::Done) matches ReflectStepView::Act(next, _) && next.ts == number(
            s.sessions[s.at as int],
            u64::MAX as nat,
        )->0 && next.system == s.system && next.sessions == s.sessions && next.at == s.at + 1
            && next.stage == ReflectStage::Session,
{
}

/// When the model wants to see a part of a file, just that part is shown.
pub proof fn law_reflection_shows_ranges(
    s: ReflectState,
    reply: Seq<char>,
    path: Seq<char>,
    range: (nat, nat),
    content: Seq<char>,
)
    requires
        s.stage == ReflectStage::Asking,
        tool_call(reply) == Some(
            ("read_file"@, path + " "@ + (decimal(range.0) + ".."@ + decimal(range.1))),
        ),
        path.len() > 0,
        !white(path[0]),
        !white(path.last()),
        range.0 <= usize::MAX,
        range.1 <= usize::MAX,
    ensures
        ({
            let reading = reflect_next(s, EventView::Reply(Ok(reply)));
            let shown = reflect_next(reading->Act_0, EventView::Text(Ok(content)));
            &&& reading->Act_1 == (EffectView::ReadText { path })
            &&& shown->Act_1 == (EffectView::Ask {
                talk: s.talk.push(Said { role: "assistant"@, content: reply }).push(
                    Said {
                        role: "user"@,
                        content: "<tool_result>"@ + shown_part(
                            path,
                            content,
                            within(range, content.len()).0,
                            within(range, content.len()).1,
                        ) + "</tool_result>"@,
                    },
                ),
                system: s.system,
            })
        }),
{
    let body = path + " "@ + (decimal(range.0) + ".."@ + decimal(range.1));
    lemma_all_digits(range.1);
    reveal_strlit(" ");
    reveal_strlit("..");
    assert(is_digit(decimal(range.1)[decimal(range.1).len() - 1]));
    assert(body.last() == decimal(range.1).last());
    assert(body[0] == path[0]);
    assert(trimmed(body) == body);
    assert(trimmed(path) == path);
    law_range_reads_back(path, range.0, range.1);
}

} // verus!
