//! Which trace events of an extrinsic are recorded.
//!
//! A recorder has targets, each with the level down to which its events are
//! recorded. An event is recorded where its level is no more verbose than
//! that of a target with whose name the event's own target starts.

use crate::block_tracing::grouping::TraceFields;
use crate::block_tracing::parser::{has_tag, tag, EQUALS};
use crate::text::{parts_of, split_at_commas, split_once_at, strs_bytes};
use vstd::prelude::*;
use vstd::string::StringSliceAdditionalSpecFns;
use vstd::utf8::{decode_utf8, encode_utf8, encode_utf8_decode_utf8, encode_utf8_valid_utf8};

verus! {

/// The level of a trace event, from the least to the most verbose.
#[derive(Clone, Copy, PartialEq, Eq, Debug)]
pub enum Level {
    Error,
    Warn,
    Info,
    Debug,
    Trace,
}

impl Level {
    /// How verbose the level is, from 1 for errors to 5 for traces.
    pub open spec fn verbosity(self) -> int {
        match self {
            Level::Error => 1,
            Level::Warn => 2,
            Level::Info => 3,
            Level::Debug => 4,
            Level::Trace => 5,
        }
    }

    /// How verbose the level is, from 1 for errors to 5 for traces.
    pub fn rank(&self) -> (r: u8)
        ensures
            r == self.verbosity(),
    {
        match self {
            Level::Error => 1,
            Level::Warn => 2,
            Level::Info => 3,
            Level::Debug => 4,
            Level::Trace => 5,
        }
    }
}

/// The level that a text names to the `tracing` crate, if it names one.
pub uninterp spec fn level_of(text: Seq<char>) -> Option<Level>;

/// `<tracing::Level as FromStr>::from_str`: the level that the text names,
/// `None` where it names none.
#[verifier::external_body]
pub(crate) fn parse_level(text: &str) -> (level: Option<Level>)
    ensures
        level == level_of(text@),
{
    match text.parse::<tracing::Level>() {
        Ok(tracing::Level::ERROR) => Some(Level::Error),
        Ok(tracing::Level::WARN) => Some(Level::Warn),
        Ok(tracing::Level::INFO) => Some(Level::Info),
        Ok(tracing::Level::DEBUG) => Some(Level::Debug),
        Ok(_) => Some(Level::Trace),
        Err(_) => None,
    }
}

/// The name of the target under which the traces of the runtime arrive.
pub const WASM_TRACE_IDENTIFIER: &'static str = "wasm_tracing";

/// The target that a text stands for: what stands before the first `=` as
/// its name, and the level that the rest names, or the most verbose level
/// where the rest names none or there is no `=`.
pub open spec fn target_of(bytes: Seq<u8>) -> (Seq<u8>, Level) {
    let i = crate::block_tracing::parser::run_end(
        bytes,
        0,
        crate::block_tracing::parser::ByteClass::Except(EQUALS),
    );
    if 0 <= i < bytes.len() {
        (
            bytes.subrange(0, i),
            match level_of(decode_utf8(bytes.subrange(i + 1, bytes.len() as int))) {
                Some(level) => level,
                None => Level::Trace,
            },
        )
    } else {
        (bytes, Level::Trace)
    }
}

/// Name and level of a target, the name as bytes.
pub open spec fn target_view(target: (String, Level)) -> (Seq<u8>, Level) {
    (encode_utf8(target.0@), target.1)
}

/// Name and level of each target, the names as bytes.
pub open spec fn targets_view(targets: Seq<(String, Level)>) -> Seq<(Seq<u8>, Level)> {
    Seq::new(targets.len(), |i: int| target_view(targets[i]))
}

// Default to TRACE if no level given or unable to parse Level
// We do not support a global `Level` currently
pub fn parse_target(s: &str) -> (target: (String, Level))
    ensures
        target_view(target) == target_of(s.spec_bytes()),
{
    match split_once_at(s, EQUALS) {
        Some((name, rest)) => {
            proof {
                encode_utf8_valid_utf8(rest@);
                encode_utf8_decode_utf8(rest@);
            }
            let level: Level = match parse_level(rest) {
                Some(level) => level,
                None => Level::Trace,
            };
            (name.to_owned(), level)
        },
        None => (s.to_owned(), Level::Trace),
    }
}

/// The targets that a list of targets stands for: the target of each part
/// between its commas, and behind them the target of the runtime's traces
/// at the most verbose level.
pub open spec fn targets_of(bytes: Seq<u8>) -> Seq<(Seq<u8>, Level)> {
    Seq::new(parts_of(bytes).len(), |i: int| target_of(parts_of(bytes)[i])).push(
        (encode_utf8(WASM_TRACE_IDENTIFIER@), Level::Trace),
    )
}

/// Whether an event of this level and target is recorded for these targets.
pub open spec fn enabled_for(targets: Seq<(Seq<u8>, Level)>, level: Level, target: Seq<u8>) -> bool {
    exists|i: int|
        0 <= i < targets.len() && level.verbosity() <= (#[trigger] targets[i]).1.verbosity()
            && has_tag(target, 0, targets[i].0)
}

/// The recorder of the trace events of one extrinsic.
#[derive(Debug)]
pub struct ExtrinsicSubscriber {
    pub targets: Vec<(String, Level)>,
    pub events: Vec<TraceFields>,
}

impl ExtrinsicSubscriber {
    /// A recorder for a list of targets, with nothing recorded.
    pub fn new(targets: &str) -> (subscriber: ExtrinsicSubscriber)
        ensures
            targets_view(subscriber.targets@) == targets_of(targets.spec_bytes()),
            subscriber.events@.len() == 0,
    {
        let parts: Vec<&str> = split_at_commas(targets);
        let ghost all = parts_of(targets.spec_bytes());
        let mut list: Vec<(String, Level)> = Vec::new();
        let mut i: usize = 0;
        while i < parts.len()
            invariant
                i <= parts@.len(),
                strs_bytes(parts@) == all,
                targets_view(list@) == Seq::new(i as nat, |j: int| target_of(all[j])),
            decreases parts@.len() - i,
        {
            let ghost before = targets_view(list@);
            let target: (String, Level) = parse_target(parts[i]);
            assert(strs_bytes(parts@)[i as int] == parts@[i as int].spec_bytes());
            list.push(target);
            assert(targets_view(list@) =~= before.push(target_of(all[i as int])));
            assert(targets_view(list@) =~= Seq::new((i + 1) as nat, |j: int| target_of(all[j])));
            i += 1;
        }
        // Ensure that WASM traces are always enabled
        // Filtering happens when decoding the actual target / level
        let ghost before = targets_view(list@);
        list.push((WASM_TRACE_IDENTIFIER.to_owned(), Level::Trace));
        assert(targets_view(list@) =~= before.push(
            (encode_utf8(WASM_TRACE_IDENTIFIER@), Level::Trace),
        ));
        assert(before =~= Seq::new(all.len(), |j: int| target_of(all[j])));
        ExtrinsicSubscriber { targets: list, events: Vec::new() }
    }

    /// Whether an event of this level and target is recorded.
    pub fn self_enabled(&self, level: Level, target: &str) -> (enabled: bool)
        ensures
            enabled == enabled_for(targets_view(self.targets@), level, target.spec_bytes()),
    {
        let ghost view = targets_view(self.targets@);
        let mut i: usize = 0;
        while i < self.targets.len()
            invariant
                i <= self.targets@.len(),
                view == targets_view(self.targets@),
                forall|j: int|
                    0 <= j < i ==> !(level.verbosity() <= (#[trigger] view[j]).1.verbosity()
                        && has_tag(target.spec_bytes(), 0, view[j].0)),
            decreases self.targets@.len() - i,
        {
            assert(view[i as int] == target_view(self.targets@[i as int]));
            if level.rank() <= self.targets[i].1.rank() && tag(
                target.as_bytes(),
                0,
                self.targets[i].0.as_str().as_bytes(),
            ) {
                return true;
            }
            i += 1;
        }
        false
    }

    /// Takes in an event: records its fields where an event of its level and
    /// target is recorded.
    pub fn event(&mut self, level: Level, target: &str, fields: TraceFields)
        ensures
            final(self).targets == old(self).targets,
            final(self).events@ == (if enabled_for(
                targets_view(old(self).targets@),
                level,
                target.spec_bytes(),
            ) {
                old(self).events@.push(fields)
            } else {
                old(self).events@
            }),
    {
        if self.self_enabled(level, target) {
            self.events.push(fields);
        }
    }

    /// Hands out the recorded events and keeps none.
    pub fn drain(&mut self) -> (events: Vec<TraceFields>)
        ensures
            events@ == old(self).events@,
            final(self).events@.len() == 0,
            final(self).targets == old(self).targets,
    {
        let mut events: Vec<TraceFields> = Vec::new();
        std::mem::swap(&mut events, &mut self.events);
        events
    }
}

} // verus!
