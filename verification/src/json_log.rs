//! Log records as the log producers send them: a timestamp, a severity level,
//! a message, structured fields and the place in the source that logged.

use vstd::prelude::*;
use crate::timestamp::Timestamp;

verus! {

/// Severity of a log record.
#[derive(Clone, Copy, Debug, PartialEq, Eq, Structural)]
pub enum Level {
    INFO,
    ERROR,
    TRACE,
    DEBUG,
    WARN,
}

/// An opaque RGBA color.
#[derive(Clone, Copy, Debug, PartialEq, Eq, Structural)]
pub struct Color {
    pub r: u8,
    pub g: u8,
    pub b: u8,
    pub a: u8,
}

/// The name of a level, as it is written in log records.
pub open spec fn level_name(l: Level) -> Seq<char> {
    match l {
        Level::INFO => seq!['I', 'N', 'F', 'O'],
        Level::ERROR => seq!['E', 'R', 'R', 'O', 'R'],
        Level::TRACE => seq!['T', 'R', 'A', 'C', 'E'],
        Level::DEBUG => seq!['D', 'E', 'B', 'U', 'G'],
        Level::WARN => seq!['W', 'A', 'R', 'N'],
    }
}

/// The color a level is shown in: info green, error red, trace blue, debug
/// orange and warn yellow.
pub open spec fn level_color(l: Level) -> Color {
    match l {
        Level::INFO => Color { r: 0, g: 255, b: 0, a: 255 },
        Level::ERROR => Color { r: 255, g: 0, b: 0, a: 255 },
        Level::TRACE => Color { r: 0, g: 0, b: 255, a: 255 },
        Level::DEBUG => Color { r: 255, g: 165, b: 0, a: 255 },
        Level::WARN => Color { r: 255, g: 255, b: 0, a: 255 },
    }
}

impl Level {
    /// The color the level is shown in.
    pub fn color(&self) -> (c: Color)
        ensures
            c == level_color(*self),
    {
        match self {
            Level::INFO => Color { r: 0, g: 255, b: 0, a: 255 },
            Level::ERROR => Color { r: 255, g: 0, b: 0, a: 255 },
            Level::TRACE => Color { r: 0, g: 0, b: 255, a: 255 },
            Level::DEBUG => Color { r: 255, g: 165, b: 0, a: 255 },
            Level::WARN => Color { r: 255, g: 255, b: 0, a: 255 },
        }
    }

    /// The name of the level: `INFO`, `ERROR`, `TRACE`, `DEBUG` or `WARN`.
    pub fn to_string(&self) -> (s: String)
        ensures
            s@ == level_name(*self),
    {
        proof {
            reveal_strlit("INFO");
            reveal_strlit("ERROR");
            reveal_strlit("TRACE");
            reveal_strlit("DEBUG");
            reveal_strlit("WARN");
        }
        match self {
            Level::INFO => String::from_str("INFO"),
            Level::ERROR => String::from_str("ERROR"),
            Level::TRACE => String::from_str("TRACE"),
            Level::DEBUG => String::from_str("DEBUG"),
            Level::WARN => String::from_str("WARN"),
        }
    }
}

/// Where in the producer's source code a record was logged.
#[derive(Debug)]
pub struct Source {
    pub target: Option<String>,
    pub function: Option<String>,
    pub file: String,
    pub line: usize,
}

/// No name occurs twice among the pairs.
pub open spec fn distinct_names(s: Seq<(Seq<char>, Seq<char>)>) -> bool {
    forall|i: int, j: int| 0 <= i < j < s.len() ==> #[trigger] s[i].0 != #[trigger] s[j].0
}

/// The structured fields of a record: pairs of a field name and the JSON
/// text of its value, each name at most once, in the order of insertion.
#[derive(Debug)]
pub struct Fields {
    pairs: Vec<(String, String)>,
}

/// The texts of a list of pairs of strings.
pub open spec fn pairs_view(p: Seq<(String, String)>) -> Seq<(Seq<char>, Seq<char>)> {
    p.map_values(|x: (String, String)| (x.0@, x.1@))
}

impl View for Fields {
    type V = Seq<(Seq<char>, Seq<char>)>;

    closed spec fn view(&self) -> Seq<(Seq<char>, Seq<char>)> {
        pairs_view(self.pairs@)
    }
}

impl Fields {
    #[verifier::type_invariant]
    spec fn inv(self) -> bool {
        distinct_names(pairs_view(self.pairs@))
    }

    /// No fields.
    pub fn new() -> (r: Fields)
        ensures
            r@ == Seq::<(Seq<char>, Seq<char>)>::empty(),
    {
        let r = Fields { pairs: Vec::new() };
        proof {
            assert(pairs_view(r.pairs@) =~= Seq::<(Seq<char>, Seq<char>)>::empty());
        }
        r
    }

    /// Sets the value of a field: a field already present keeps its place
    /// and takes the new value, a new field comes last.
    pub fn insert(&mut self, name: String, value: String)
        ensures
            (exists|i: int| 0 <= i < old(self)@.len() && #[trigger] old(self)@[i].0 == name@) ==> {
                let i = choose|i: int| 0 <= i < old(self)@.len() && #[trigger] old(self)@[i].0 == name@;
                final(self)@ == old(self)@.update(i, (name@, value@))
            },
            !(exists|i: int| 0 <= i < old(self)@.len() && #[trigger] old(self)@[i].0 == name@) ==> final(self)@
                == old(self)@.push((name@, value@)),
            distinct_names(final(self)@),
    {
        proof {
            use_type_invariant(&*self);
        }
        let ghost old_view = self@;
        let n = self.pairs.len();
        let mut i: usize = 0;
        while i < n
            invariant
                i <= n,
                n == self.pairs@.len(),
                old_view == pairs_view(self.pairs@),
                old_view == old(self)@,
                distinct_names(old_view),
                forall|k: int| 0 <= k < i ==> #[trigger] old_view[k].0 != name@,
            decreases n - i,
        {
            if self.pairs[i].0 == name {
                proof {
                    assert(old_view[i as int].0 == name@);
                    let j = choose|j: int| 0 <= j < old_view.len() && #[trigger] old_view[j].0 == name@;
                    if j != i {
                        if j < i {
                            assert(old_view[j].0 != old_view[i as int].0);
                        } else {
                            assert(old_view[i as int].0 != old_view[j].0);
                        }
                    }
                    assert(j == i);
                    assert(pairs_view(self.pairs@.update(i as int, (name, value))) =~= old_view.update(
                        i as int,
                        (name@, value@),
                    ));
                    let nv = old_view.update(i as int, (name@, value@));
                    assert forall|k: int, l: int| 0 <= k < l < nv.len() implies #[trigger] nv[k].0 != #[trigger] nv[l].0 by {
                        assert(nv[k].0 == old_view[k].0);
                        assert(nv[l].0 == old_view[l].0);
                    }
                }
                let mut pairs = Vec::new();
                std::mem::swap(&mut pairs, &mut self.pairs);
                pairs.set(i, (name, value));
                self.pairs = pairs;
                return;
            }
            i = i + 1;
        }
        proof {
            assert(pairs_view(self.pairs@.push((name, value))) =~= old_view.push((name@, value@)));
            let nv = old_view.push((name@, value@));
            assert forall|k: int, l: int| 0 <= k < l < nv.len() implies #[trigger] nv[k].0 != #[trigger] nv[l].0 by {
                if l == old_view.len() {
                    assert(old_view[k].0 != name@);
                }
            }
        }
        let mut pairs = Vec::new();
        std::mem::swap(&mut pairs, &mut self.pairs);
        pairs.push((name, value));
        self.pairs = pairs;
    }

    /// The number of fields; no field name occurs twice.
    pub fn len(&self) -> (r: usize)
        ensures
            r == self@.len(),
            distinct_names(self@),
    {
        proof {
            use_type_invariant(self);
        }
        self.pairs.len()
    }

    /// The name of the field at `i`.
    pub fn name(&self, i: usize) -> (r: &String)
        requires
            i < self@.len(),
        ensures
            r@ == self@[i as int].0,
    {
        &self.pairs[i].0
    }

    /// The value text of the field at `i`.
    pub fn value(&self, i: usize) -> (r: &String)
        requires
            i < self@.len(),
        ensures
            r@ == self@[i as int].1,
    {
        &self.pairs[i].1
    }
}

/// One log record.
#[derive(Debug)]
pub struct LogEntry {
    pub timestamp: Timestamp,
    pub level: Level,
    pub message: String,
    pub fields: Fields,
    pub span: Option<Fields>,
    pub source: Source,
}

} // verus!
