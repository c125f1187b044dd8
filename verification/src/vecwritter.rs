//! An in-memory sink: each write lands as one `String` in a vector owned by
//! the sink itself, read back after the conversion is done.

use vstd::prelude::*;

use crate::sink::{OutWritter, OutWritterFactory, Txt2SqlError};

verus! {

/// A sink that keeps every written paragraph in an owned vector.
pub struct VecWritter {
    /// The paragraphs written so far, in order.
    pub paragraphs: Vec<String>,
    /// Whether the sink still accepts writes.
    pub open: bool,
}

impl OutWritter for VecWritter {
    open spec fn is_open(&self) -> bool {
        self.open
    }

    open spec fn writes(&self) -> Seq<Seq<char>> {
        self.paragraphs.deep_view()
    }

    fn write(&mut self, paragraph: &str) -> (r: Result<(), Txt2SqlError>) {
        if self.open {
            let ghost prev = self.paragraphs.deep_view();
            self.paragraphs.push(paragraph.to_owned());
            proof {
                assert(self.paragraphs.deep_view() =~= prev.push(paragraph@));
            }
            Ok(())
        } else {
            Err(Txt2SqlError::SinkClosed)
        }
    }

    fn close(&mut self) {
        self.open = false;
    }
}

/// A factory for in-memory sinks; it records the logical names opened, in
/// order, and never fails to open.
pub struct VecWritterFactory {
    /// The logical names opened so far, in order.
    pub opened: Vec<String>,
}

impl VecWritterFactory {
    /// A fresh factory that has opened nothing yet.
    pub fn init() -> (r: Self)
        ensures
            r.opened_names() == Seq::<Seq<char>>::empty(),
    {
        let r = Self { opened: Vec::new() };
        proof {
            assert(r.opened.deep_view() =~= Seq::<Seq<char>>::empty());
        }
        r
    }
}

impl OutWritterFactory for VecWritterFactory {
    type Writter = VecWritter;

    open spec fn opened_names(&self) -> Seq<Seq<char>> {
        self.opened.deep_view()
    }

    fn open(&mut self, file_name: &str) -> (r: Result<VecWritter, Txt2SqlError>)
        ensures
            r is Ok,
    {
        let ghost prev = self.opened.deep_view();
        self.opened.push(file_name.to_owned());
        proof {
            assert(self.opened.deep_view() =~= prev.push(file_name@));
        }
        let w = VecWritter { paragraphs: Vec::new(), open: true };
        proof {
            assert(w.paragraphs.deep_view() =~= Seq::<Seq<char>>::empty());
        }
        Ok(w)
    }

    fn end(&mut self) {
    }
}

} // verus!
