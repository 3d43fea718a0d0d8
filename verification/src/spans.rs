//! The spans of one subscriber: a table from the identifier of each span to
//! its storage.
//!
//! A span is entered once, and from then on it is active: its storage is
//! there, owned by its entry in the table, until the span is closed. An
//! identifier is never used again.
use crate::config::Traceon;
use crate::error::FormatError;
use crate::event::{event_entries, record_text, shown_time, Event};
use crate::record::entries_or_none;
use crate::span::{inherited, span_fields};
use crate::storage::{observed_all, JsonStorage};
use crate::time::Timestamp;
use crate::value::{entries_of, Field};
use vstd::prelude::*;
use vstd::utf8::encode_utf8;

verus! {

/// The storage of every span that was entered, by identifier; `None` for a
/// span that was closed.
#[derive(Debug)]
pub struct Spans {
    /// One slot for each identifier handed out so far.
    pub slots: Vec<Option<JsonStorage>>,
}

impl Spans {
    /// How many spans were entered so far: the next identifier.
    pub open spec fn count(&self) -> nat {
        self.slots@.len()
    }

    /// The span was entered and has not been closed.
    pub open spec fn is_active(&self, id: int) -> bool {
        0 <= id < self.slots@.len() && self.slots@[id] is Some
    }

    /// The storage of an active span, if `id` is one.
    pub open spec fn storage(&self, id: Option<usize>) -> Option<&JsonStorage> {
        match id {
            Some(id) => if self.is_active(id as int) {
                Some(&self.slots@[id as int]->0)
            } else {
                None
            },
            None => None,
        }
    }

    /// Every span is a map: none holds a name twice.
    pub open spec fn wf(&self) -> bool {
        forall|id: int| self.is_active(id) ==> (#[trigger] self.slots@[id])->0.wf()
    }

    /// A table without spans.
    pub fn new() -> (r: Spans)
        ensures
            r.count() == 0,
            r.wf(),
    {
        Spans { slots: Vec::new() }
    }

    /// The storage of a span, if the span is active.
    pub fn get(&self, id: usize) -> (r: Option<&JsonStorage>)
        ensures
            r == self.storage(Some(id)),
    {
        if id < self.slots.len() {
            match &self.slots[id] {
                Some(storage) => Some(storage),
                None => None,
            }
        } else {
            None
        }
    }

    /// The storage of the span given, if one is given and it is active.
    pub fn lookup(&self, id: Option<usize>) -> (r: Option<&JsonStorage>)
        ensures
            r == self.storage(id),
    {
        match id {
            Some(id) => self.get(id),
            None => None,
        }
    }

    /// Enters a new span called `name` with the fields `attrs` under the span
    /// `parent`, and returns its identifier. The span inherits what its parent
    /// holds now, if the parent is active, and nothing otherwise. No other span
    /// changes.
    pub fn new_span(
        &mut self,
        config: &Traceon,
        parent: Option<usize>,
        name: &str,
        attrs: &[Field],
    ) -> (id: usize)
        ensures
            id == old(self).count(),
            final(self).count() == old(self).count() + 1,
            forall|k: int| 0 <= k < old(self).count() ==> final(self).slots@[k] == old(self).slots@[k],
            final(self).is_active(id as int),
            old(self).wf() ==> final(self).wf(),
            ({
                let from = old(self).storage(parent);
                let entered = final(self).slots@[id as int]->0;
                &&& entered.join_fields == (match from {
                    Some(p) => p.join_fields,
                    None => config.join_fields,
                })
                &&& entered.span_format == (match from {
                    Some(p) => p.span_format,
                    None => config.span_format,
                })
                &&& entered.entries() == span_fields(
                    *config,
                    inherited(from),
                    entered.join_fields,
                    entered.span_format,
                    name@,
                    entries_of(attrs@),
                )
            }),
    {
        let storage = config.on_new_span(self.lookup(parent), name, attrs);
        let id = self.slots.len();
        self.slots.push(Some(storage));
        id
    }

    /// Records `values` on an active span: each value is merged with what
    /// the span itself holds. No other span changes, so a span that inherited
    /// from this one keeps what it inherited.
    pub fn record(&mut self, config: &Traceon, id: usize, values: &[Field])
        requires
            old(self).is_active(id as int),
        ensures
            final(self).count() == old(self).count(),
            forall|k: int|
                0 <= k < old(self).count() && k != id ==> final(self).slots@[k] == old(
                    self,
                ).slots@[k],
            final(self).is_active(id as int),
            old(self).wf() ==> final(self).wf(),
            ({
                let before = old(self).slots@[id as int]->0;
                let after = final(self).slots@[id as int]->0;
                &&& after.join_fields == before.join_fields
                &&& after.span_format == before.span_format
                &&& after.entries() == observed_all(
                    before.entries(),
                    before.join_fields,
                    before.span_format,
                    entries_of(values@),
                )
            }),
    {
        match &mut self.slots[id] {
            Some(storage) => config.on_record(storage, values),
            None => unreached(),
        }
    }

    /// Closes a span: its storage is dropped. No other span changes.
    pub fn close(&mut self, id: usize)
        ensures
            final(self).count() == old(self).count(),
            !final(self).is_active(id as int),
            forall|k: int|
                0 <= k < old(self).count() && k != id ==> final(self).slots@[k] == old(
                    self,
                ).slots@[k],
            old(self).wf() ==> final(self).wf(),
    {
        if id < self.slots.len() {
            self.slots.set(id, None);
        }
    }

    /// Formats an event that occurs while the span `current` is active, or
    /// outside every span.
    pub fn on_event(&self, config: &Traceon, event: &Event, current: Option<usize>, now: &Timestamp) -> (r:
        Result<Vec<u8>, FormatError>)
        ensures
            r is Ok <==> shown_time(*config, *now) is Some,
            !(config.time is CustomFormat) ==> r is Ok,
            r matches Err(e) ==> e is TimePattern,
            r matches Ok(bytes) ==> bytes@ == encode_utf8(
                record_text(
                    *config,
                    event.metadata,
                    event_entries(entries_of(event.fields@)),
                    entries_or_none(self.storage(current)),
                    shown_time(*config, *now)->0,
                ),
            ).push(10u8),
    {
        config.on_event(event, self.lookup(current), now)
    }
}

} // verus!
