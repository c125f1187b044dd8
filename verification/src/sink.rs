//! The output-sink abstraction: a sink is a named, append-only, closable text
//! destination; a factory creates sinks by logical name and signals overall
//! completion. Any conforming implementation (in-memory, file-backed, ...) is
//! interchangeable at the converter boundary.

use vstd::prelude::*;

verus! {

/// The ways a conversion can fail: an operation invoked in the wrong state,
/// a write attempted on a closed sink, or a sink that could not be created.
#[derive(Clone, Copy, Debug, PartialEq, Eq, Structural)]
pub enum Txt2SqlError {
    ProtocolViolation,
    SinkClosed,
    OpenFailed,
}

/// An append-only, closable text destination. While it is open, `write`
/// appends one paragraph; after `close`, every write fails with `SinkClosed`
/// and changes nothing. Closing is idempotent and keeps what was written.
pub trait OutWritter: Sized {
    /// Whether the sink still accepts writes.
    spec fn is_open(&self) -> bool;

    /// The paragraphs written so far, in order.
    spec fn writes(&self) -> Seq<Seq<char>>;

    /// Appends `paragraph` if the sink is open; fails with `SinkClosed` and
    /// leaves the content as it was if it is closed.
    fn write(&mut self, paragraph: &str) -> (r: Result<(), Txt2SqlError>)
        ensures
            old(self).is_open() ==> r is Ok && final(self).is_open()
                && final(self).writes() == old(self).writes().push(paragraph@),
            !old(self).is_open() ==> r == Err::<(), Txt2SqlError>(Txt2SqlError::SinkClosed)
                && final(self).is_open() == old(self).is_open()
                && final(self).writes() == old(self).writes(),
    ;

    /// Marks the sink closed; what was written stays. Closing an already
    /// closed sink is a no-op.
    fn close(&mut self)
        ensures
            !final(self).is_open(),
            final(self).writes() == old(self).writes(),
    ;
}

/// Creates sinks on demand, each bound to a logical name, and signals overall
/// completion. The mapping from a name to a concrete resource is entirely the
/// factory's concern.
pub trait OutWritterFactory: Sized {
    /// The kind of sink this factory hands out.
    type Writter: OutWritter;

    /// The logical names opened so far, in order.
    spec fn opened_names(&self) -> Seq<Seq<char>>;

    /// Creates and returns a freshly opened, empty sink bound to `file_name`,
    /// or fails with `OpenFailed` on any underlying resource error, opening
    /// nothing.
    fn open(&mut self, file_name: &str) -> (r: Result<Self::Writter, Txt2SqlError>)
        ensures
            match r {
                Ok(w) => w.is_open() && w.writes() == Seq::<Seq<char>>::empty()
                    && final(self).opened_names() == old(self).opened_names().push(file_name@),
                Err(e) => e == Txt2SqlError::OpenFailed
                    && final(self).opened_names() == old(self).opened_names(),
            },
    ;

    /// Signals that no more sinks will be opened or used. Calling it more
    /// than once is permitted and a no-op.
    fn end(&mut self)
        ensures
            final(self).opened_names() == old(self).opened_names(),
    ;
}

} // verus!
