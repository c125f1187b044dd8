//! The converter: a state machine that consumes a flat-text table one line at
//! a time and writes a `create table` statement and a stream of `insert`
//! statements through sinks obtained from a factory. It enforces a strict
//! open -> header -> body -> close lifecycle; any call out of order fails
//! with `ProtocolViolation` and changes nothing.

use vstd::prelude::*;

use crate::sink::{OutWritter, OutWritterFactory, Txt2SqlError};
use crate::sqltext::{
    build_create_table, build_insert, create_table_text, insert_text, sanitize_all,
    sanitized_columns, split_chars, split_line,
};

verus! {

/// The conversion options: the field separator lines are split on, and the
/// name of the table the statements speak of.
pub struct Txt2SqlOptions {
    /// The separator between fields of one line.
    pub field_separator: String,
    /// The table name used in the generated statements.
    pub table_name: String,
}

impl Txt2SqlOptions {
    /// Options with the given separator and table name.
    pub fn new(field_separator: String, table_name: String) -> (r: Self)
        ensures
            r.field_separator == field_separator,
            r.table_name == table_name,
    {
        Self { field_separator, table_name }
    }
}

impl Default for Txt2SqlOptions {
    /// The documented defaults: separator `|`, table name `table1`.
    fn default() -> (r: Self)
        ensures
            r.field_separator@ == "|"@,
            r.table_name@ == "table1"@,
    {
        Self { field_separator: "|".to_owned(), table_name: "table1".to_owned() }
    }
}

/// The sub-state within `Started`: the next fed line is the header, or a body
/// row. The phase moves from `Head` to `Body` exactly once.
#[derive(Clone, Copy, Debug, PartialEq, Eq, Structural)]
pub enum Txt2SqlPart {
    Head,
    Body,
}

/// What exists only while the converter is started: the sanitized column
/// identifiers, the two sinks, and the phase.
pub struct Txt2SqlOpenedMembers<W> {
    /// The sanitized column identifiers, in header order.
    pub columns: Vec<String>,
    /// The sink the `create table` statement goes to.
    pub create_table: W,
    /// The sink the `insert` statements go to.
    pub inserts: W,
    /// Whether the next line is the header or a body row.
    pub part: Txt2SqlPart,
}

/// What remains after the conversion is done: the two sinks, kept for
/// read-only inspection.
pub struct Txt2SqlDoneMembers<W> {
    /// The sink that received the `create table` statement.
    pub create_table: W,
    /// The sink that received the `insert` statements.
    pub inserts: W,
}

/// The converter's lifecycle state. Transitions are monotonic:
/// `New -> Started -> Done`, never backward.
pub enum Txt2SqlStatus<W> {
    New,
    Started(Txt2SqlOpenedMembers<W>),
    Done(Txt2SqlDoneMembers<W>),
}

/// The converter. It owns the factory for its whole lifetime and is its sole
/// user.
pub struct Txt2Sql<F: OutWritterFactory> {
    /// The lifecycle state, with the sinks and columns while they exist.
    pub status: Txt2SqlStatus<F::Writter>,
    /// The factory the two sinks are opened through.
    pub owf: F,
    /// The conversion options, immutable once constructed.
    pub options: Txt2SqlOptions,
}

impl<F: OutWritterFactory> Txt2Sql<F> {
    /// While started, the sink of the coming statements is open: both sinks
    /// in the header phase, only the inserts sink in the body phase (the
    /// `create table` sink is closed right after its one write).
    pub open spec fn wf(&self) -> bool {
        match self.status {
            Txt2SqlStatus::Started(m) => match m.part {
                Txt2SqlPart::Head => m.create_table.is_open() && m.inserts.is_open(),
                Txt2SqlPart::Body => !m.create_table.is_open() && m.inserts.is_open(),
            },
            _ => true,
        }
    }

    /// A fresh converter in state `New`, owning the factory and the options.
    pub fn init(owf: F, options: Txt2SqlOptions) -> (r: Self)
        ensures
            r.status is New,
            r.owf == owf,
            r.options == options,
            r.wf(),
    {
        Self { status: Txt2SqlStatus::New, owf, options }
    }

    /// Opens the `create_table` and `inserts` sinks through the factory and
    /// moves to `Started`, header phase. In any state but `New` it fails with
    /// `ProtocolViolation` and changes nothing; if the factory cannot open a
    /// sink, `OpenFailed` propagates and the converter stays `New`.
    pub fn process_start(&mut self) -> (r: Result<(), Txt2SqlError>)
        requires
            old(self).wf(),
        ensures
            final(self).wf(),
            final(self).options == old(self).options,
            match old(self).status {
                Txt2SqlStatus::New => match r {
                    Ok(()) => {
                        &&& final(self).status matches Txt2SqlStatus::Started(m)
                        &&& m.columns@.len() == 0
                        &&& m.part is Head
                        &&& m.create_table.is_open()
                        &&& m.create_table.writes() == Seq::<Seq<char>>::empty()
                        &&& m.inserts.is_open()
                        &&& m.inserts.writes() == Seq::<Seq<char>>::empty()
                        &&& final(self).owf.opened_names() == old(self).owf.opened_names()
                            + seq!["create_table"@, "inserts"@]
                    },
                    Err(e) => e == Txt2SqlError::OpenFailed && final(self).status is New,
                },
                _ => r == Err::<(), Txt2SqlError>(Txt2SqlError::ProtocolViolation) && *final(self)
                    == *old(self),
            },
    {
        match &self.status {
            Txt2SqlStatus::New => {
                let create_table = match self.owf.open("create_table") {
                    Ok(w) => w,
                    Err(e) => {
                        return Err(e);
                    },
                };
                let inserts = match self.owf.open("inserts") {
                    Ok(w) => w,
                    Err(e) => {
                        return Err(e);
                    },
                };
                let columns: Vec<String> = Vec::new();
                proof {
                    assert(self.owf.opened_names() =~= old(self).owf.opened_names() + seq![
                        "create_table"@,
                        "inserts"@,
                    ]);
                }
                self.status = Txt2SqlStatus::Started(
                    Txt2SqlOpenedMembers { columns, create_table, inserts, part: Txt2SqlPart::Head },
                );
                Ok(())
            },
            _ => Err(Txt2SqlError::ProtocolViolation),
        }
    }

    /// Consumes one line. In the header phase it derives the sanitized
    /// columns, writes the whole `create table` statement as a single write,
    /// closes that sink and moves to the body phase. In the body phase it
    /// writes one `insert` statement pairing the columns with the line's raw
    /// values positionally, without count validation. In any state but
    /// `Started` it fails with `ProtocolViolation` and changes nothing.
    pub fn process_line(&mut self, line: &str) -> (r: Result<(), Txt2SqlError>)
        requires
            old(self).wf(),
        ensures
            final(self).wf(),
            final(self).options == old(self).options,
            final(self).owf.opened_names() == old(self).owf.opened_names(),
            match old(self).status {
                Txt2SqlStatus::Started(m) => {
                    &&& r is Ok
                    &&& final(self).status matches Txt2SqlStatus::Started(m2)
                    &&& (m.part is Head ==> {
                        &&& m2.part is Body
                        &&& m2.columns.deep_view() == sanitized_columns(
                            line@,
                            old(self).options.field_separator@,
                        )
                        &&& !m2.create_table.is_open()
                        &&& m2.create_table.writes() == m.create_table.writes().push(
                            create_table_text(
                                old(self).options.table_name@,
                                sanitized_columns(line@, old(self).options.field_separator@),
                            ),
                        )
                        &&& m2.inserts.is_open() == m.inserts.is_open()
                        &&& m2.inserts.writes() == m.inserts.writes()
                    })
                    &&& (m.part is Body ==> {
                        &&& m2.part is Body
                        &&& m2.columns == m.columns
                        &&& m2.create_table.is_open() == m.create_table.is_open()
                        &&& m2.create_table.writes() == m.create_table.writes()
                        &&& m2.inserts.is_open()
                        &&& m2.inserts.writes() == m.inserts.writes().push(
                            insert_text(
                                old(self).options.table_name@,
                                m.columns.deep_view(),
                                split_chars(line@, old(self).options.field_separator@),
                            ),
                        )
                    })
                },
                _ => r == Err::<(), Txt2SqlError>(Txt2SqlError::ProtocolViolation) && *final(self)
                    == *old(self),
            },
    {
        match &mut self.status {
            Txt2SqlStatus::Started(m) => {
                match m.part {
                    Txt2SqlPart::Head => {
                        let tokens = split_line(line, self.options.field_separator.as_str());
                        let cols = sanitize_all(&tokens);
                        let ddl = build_create_table(self.options.table_name.as_str(), &cols);
                        match m.create_table.write(ddl.as_str()) {
                            Ok(()) => {},
                            Err(_) => {
                                return vstd::pervasive::unreached();
                            },
                        }
                        m.create_table.close();
                        m.columns = cols;
                        m.part = Txt2SqlPart::Body;
                        Ok(())
                    },
                    Txt2SqlPart::Body => {
                        let vals = split_line(line, self.options.field_separator.as_str());
                        let stmt = build_insert(
                            self.options.table_name.as_str(),
                            &m.columns,
                            &vals,
                        );
                        match m.inserts.write(stmt.as_str()) {
                            Ok(()) => Ok(()),
                            Err(_) => vstd::pervasive::unreached(),
                        }
                    },
                }
            },
            _ => Err(Txt2SqlError::ProtocolViolation),
        }
    }

    /// Closes the inserts sink, signals the factory that no more sinks will
    /// be opened, and moves to `Done`, keeping both sinks for read-only
    /// inspection. In any state but `Started` it fails with
    /// `ProtocolViolation` and changes nothing.
    pub fn process_end(&mut self) -> (r: Result<(), Txt2SqlError>)
        requires
            old(self).wf(),
        ensures
            final(self).wf(),
            final(self).options == old(self).options,
            final(self).owf.opened_names() == old(self).owf.opened_names(),
            match old(self).status {
                Txt2SqlStatus::Started(m) => {
                    &&& r is Ok
                    &&& final(self).status matches Txt2SqlStatus::Done(d)
                    &&& d.create_table.is_open() == m.create_table.is_open()
                    &&& d.create_table.writes() == m.create_table.writes()
                    &&& !d.inserts.is_open()
                    &&& d.inserts.writes() == m.inserts.writes()
                },
                _ => r == Err::<(), Txt2SqlError>(Txt2SqlError::ProtocolViolation) && *final(self)
                    == *old(self),
            },
    {
        match &self.status {
            Txt2SqlStatus::Started(_) => {},
            _ => {
                return Err(Txt2SqlError::ProtocolViolation);
            },
        }
        let mut taken = Txt2SqlStatus::New;
        core::mem::swap(&mut self.status, &mut taken);
        match taken {
            Txt2SqlStatus::Started(mut m) => {
                m.inserts.close();
                self.owf.end();
                self.status = Txt2SqlStatus::Done(
                    Txt2SqlDoneMembers { create_table: m.create_table, inserts: m.inserts },
                );
                Ok(())
            },
            _ => vstd::pervasive::unreached(),
        }
    }
}

/// What the `create_table` sink holds after a whole run over `lines`: nothing
/// if no line was fed, else the one `create table` statement derived from the
/// header line.
pub open spec fn header_output(options: Txt2SqlOptions, lines: Seq<Seq<char>>) -> Seq<Seq<char>> {
    if lines.len() == 0 {
        Seq::empty()
    } else {
        seq![
            create_table_text(
                options.table_name@,
                sanitized_columns(lines[0], options.field_separator@),
            ),
        ]
    }
}

/// What the `inserts` sink holds after a whole run over `lines`: one `insert`
/// statement per line after the header, in input order.
pub open spec fn inserts_output(options: Txt2SqlOptions, lines: Seq<Seq<char>>) -> Seq<Seq<char>> {
    if lines.len() == 0 {
        Seq::empty()
    } else {
        Seq::new(
            (lines.len() - 1) as nat,
            |i: int|
                insert_text(
                    options.table_name@,
                    sanitized_columns(lines[0], options.field_separator@),
                    split_chars(lines[1 + i], options.field_separator@),
                ),
        )
    }
}

/// Runs a whole conversion: start, one `process_line` per line (the first
/// line is the header), then end. Returns the finished converter, whose sinks
/// hold exactly `header_output` and `inserts_output`; fails only with
/// `OpenFailed`, when the factory could not open a sink.
pub fn process_lines<F: OutWritterFactory>(owf: F, options: Txt2SqlOptions, lines: &Vec<String>) -> (r:
    Result<Txt2Sql<F>, Txt2SqlError>)
    ensures
        match r {
            Ok(t) => {
                &&& t.options == options
                &&& t.owf.opened_names() == owf.opened_names() + seq!["create_table"@, "inserts"@]
                &&& t.status matches Txt2SqlStatus::Done(d)
                &&& d.create_table.writes() == header_output(options, lines.deep_view())
                &&& d.inserts.writes() == inserts_output(options, lines.deep_view())
            },
            Err(e) => e == Txt2SqlError::OpenFailed,
        },
{
    let mut t = Txt2Sql::init(owf, options);
    match t.process_start() {
        Ok(()) => {},
        Err(e) => {
            return Err(e);
        },
    }
    let ghost opened = owf.opened_names() + seq!["create_table"@, "inserts"@];
    let mut i: usize = 0;
    while i < lines.len()
        invariant
            i <= lines@.len(),
            t.wf(),
            t.options == options,
            t.owf.opened_names() == opened,
            t.status matches Txt2SqlStatus::Started(m),
            i == 0 ==> (t.status matches Txt2SqlStatus::Started(m) && m.part is Head
                && m.create_table.writes() == Seq::<Seq<char>>::empty()
                && m.inserts.writes() == Seq::<Seq<char>>::empty()),
            i > 0 ==> (t.status matches Txt2SqlStatus::Started(m) && m.part is Body
                && m.columns.deep_view() == sanitized_columns(
                lines.deep_view()[0],
                options.field_separator@,
            ) && m.create_table.writes() == header_output(options, lines.deep_view())
                && m.inserts.writes() == Seq::new(
                (i - 1) as nat,
                |k: int|
                    insert_text(
                        options.table_name@,
                        sanitized_columns(lines.deep_view()[0], options.field_separator@),
                        split_chars(lines.deep_view()[1 + k], options.field_separator@),
                    ),
            )),
        decreases lines@.len() - i,
    {
        let ghost pre = t;
        match t.process_line(lines[i].as_str()) {
            Ok(()) => {},
            Err(_) => {
                return vstd::pervasive::unreached();
            },
        }
        i = i + 1;
        proof {
            if i > 1 {
                let sep = options.field_separator@;
                let head = lines.deep_view()[0];
                let f = |k: int|
                    insert_text(
                        options.table_name@,
                        sanitized_columns(head, sep),
                        split_chars(lines.deep_view()[1 + k], sep),
                    );
                assert(t.status matches Txt2SqlStatus::Started(m) ==> m.inserts.writes() =~= Seq::new(
                    (i - 1) as nat,
                    f,
                ));
            }
        }
    }
    match t.process_end() {
        Ok(()) => {},
        Err(_) => {
            return vstd::pervasive::unreached();
        },
    }
    proof {
        if lines.deep_view().len() == 0 {
            assert(t.status matches Txt2SqlStatus::Done(d) ==> d.create_table.writes()
                =~= header_output(options, lines.deep_view()));
            assert(t.status matches Txt2SqlStatus::Done(d) ==> d.inserts.writes() =~= inserts_output(
                options,
                lines.deep_view(),
            ));
        } else {
            assert(t.status matches Txt2SqlStatus::Done(d) ==> d.inserts.writes() =~= inserts_output(
                options,
                lines.deep_view(),
            ));
        }
    }
    Ok(t)
}

} // verus!
