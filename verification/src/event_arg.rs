//! Shapes of event arguments: a small grammar over type names, and its
//! flattening into the primitive names that make up an argument.

use vstd::prelude::*;
use vstd::string::StrSliceExecFns;
use crate::error::{agrees, Error, ErrorView};
use crate::text::{find, find_char, lemma_find_bound, lemma_trim_len, trim, trim_text};

verus! {

/// The shape of one event argument.
#[derive(Debug, Eq, PartialEq, Hash)]
pub enum EventArg {
    /// A type known by its name alone.
    Primitive(String),
    /// A vector of some shape.
    Vec(Box<EventArg>),
    /// A tuple of shapes, in order.
    Tuple(Vec<EventArg>),
}

/// Mathematical value of an [`EventArg`].
pub enum EventArgView {
    Primitive(Seq<char>),
    Vec(Box<EventArgView>),
    Tuple(Seq<EventArgView>),
}

impl EventArg {
    /// The shape as a mathematical value.
    pub open spec fn shape(&self) -> EventArgView
        decreases self,
    {
        match self {
            EventArg::Primitive(name) => EventArgView::Primitive(name@),
            EventArg::Vec(inner) => EventArgView::Vec(Box::new(inner.shape())),
            EventArg::Tuple(fields) => EventArgView::Tuple(
                Seq::new(
                    fields.len() as nat,
                    |i: int|
                        if 0 <= i < fields.len() {
                            fields[i].shape()
                        } else {
                            EventArgView::Tuple(Seq::empty())
                        },
                ),
            ),
        }
    }
}

impl View for EventArg {
    type V = EventArgView;

    open spec fn view(&self) -> EventArgView {
        self.shape()
    }
}

/// The views of a sequence of shapes, in order.
pub open spec fn views(args: Seq<EventArg>) -> Seq<EventArgView> {
    Seq::new(args.len(), |i: int| args[i]@)
}

impl EventArgView {
    /// The names of the primitive leaves, depth first and left to right.
    pub open spec fn primitives(self) -> Seq<Seq<char>>
        decreases self,
    {
        match self {
            EventArgView::Primitive(name) => seq![name],
            EventArgView::Vec(inner) => inner.primitives(),
            EventArgView::Tuple(fields) => leaves(fields),
        }
    }
}

/// The primitive leaves of each shape in `fields`, concatenated in order.
pub open spec fn leaves(fields: Seq<EventArgView>) -> Seq<Seq<char>>
    decreases fields,
{
    if fields.len() == 0 {
        Seq::empty()
    } else {
        leaves(fields.drop_last()) + fields.last().primitives()
    }
}

/// The reason given for a `Vec<` that is never closed.
pub open spec fn unclosed_vec_reason() -> Seq<char> {
    "Expected closing `>` for `Vec`"@
}

/// The reason given for a `(` that is never closed.
pub open spec fn unclosed_tuple_reason() -> Seq<char> {
    "Expecting closing `)` for tuple"@
}

/// Whether `s` starts with `Vec<`.
pub open spec fn has_vec_prefix(s: Seq<char>) -> bool {
    s.len() >= 4 && s[0] == 'V' && s[1] == 'e' && s[2] == 'c' && s[3] == '<'
}

/// The shape that the text `s` denotes.
///
/// `Vec<INNER>` is a vector of what `INNER` denotes; `(A, B, ..)` is the tuple
/// of what the comma-separated, trimmed parts denote; a text that opens either
/// form without closing it is an error; any other text is a primitive name.
pub open spec fn parse_arg(s: Seq<char>) -> Result<EventArgView, ErrorView>
    decreases s.len(), 0nat,
{
    if has_vec_prefix(s) {
        if s.last() == '>' {
            match parse_arg(s.subrange(4, s.len() - 1)) {
                Ok(inner) => Ok(EventArgView::Vec(Box::new(inner))),
                Err(e) => Err(e),
            }
        } else {
            Err(ErrorView::InvalidEventArg(s, unclosed_vec_reason()))
        }
    } else if s.len() > 0 && s[0] == '(' {
        if s.last() == ')' {
            match parse_fields(s.subrange(1, s.len() - 1)) {
                Ok(fields) => Ok(EventArgView::Tuple(fields)),
                Err(e) => Err(e),
            }
        } else {
            Err(ErrorView::InvalidEventArg(s, unclosed_tuple_reason()))
        }
    } else {
        Ok(EventArgView::Primitive(s))
    }
}

/// The shapes that the comma-separated parts of `list` denote, each part
/// trimmed; the error of the first part that denotes none.
pub open spec fn parse_fields(list: Seq<char>) -> Result<Seq<EventArgView>, ErrorView>
    decreases list.len(), 1nat,
{
    let comma = find(list, ',');
    proof {
        lemma_find_bound(list, ',');
        lemma_trim_len(list.take(comma as int));
    }
    match parse_arg(trim(list.take(comma as int))) {
        Err(e) => Err(e),
        Ok(head) => if comma >= list.len() {
            Ok(seq![head])
        } else {
            match parse_fields(list.skip(comma as int + 1)) {
                Ok(tail) => Ok(seq![head] + tail),
                Err(e) => Err(e),
            }
        },
    }
}

/// Puts `done` in front of what `rest` holds, keeping an error as it is.
pub open spec fn prepend(
    done: Seq<EventArgView>,
    rest: Result<Seq<EventArgView>, ErrorView>,
) -> Result<Seq<EventArgView>, ErrorView> {
    match rest {
        Ok(tail) => Ok(done + tail),
        Err(e) => Err(e),
    }
}

impl Clone for EventArg {
    fn clone(&self) -> (copy: Self)
        ensures
            copy@ == self@,
        decreases self,
    {
        match self {
            EventArg::Primitive(name) => EventArg::Primitive(name.clone()),
            EventArg::Vec(inner) => EventArg::Vec(Box::new((&**inner).clone())),
            EventArg::Tuple(fields) => {
                let mut copies: Vec<EventArg> = Vec::new();
                let mut i: usize = 0;
                while i < fields.len()
                    invariant
                        *self is Tuple,
                        self->Tuple_0 == *fields,
                        i <= fields.len(),
                        copies.len() == i,
                        forall|j: int| 0 <= j < i ==> copies@[j]@ == fields@[j]@,
                    decreases fields.len() - i,
                {
                    proof {
                        assert(decreases_to!(*fields => fields[i as int]));
                    }
                    let copy = fields[i].clone();
                    copies.push(copy);
                    i = i + 1;
                }
                let copy = EventArg::Tuple(copies);
                proof {
                    assert(copy@->Tuple_0 =~= self@->Tuple_0);
                }
                copy
            },
        }
    }
}

impl EventArg {
    /// Reads a shape from its text.
    pub fn from_str(s: &str) -> (r: Result<EventArg, Error>)
        ensures
            agrees(r, parse_arg(s@)),
        decreases s@.len(), 0nat,
    {
        let n: usize = s.unicode_len();
        if n >= 4 && s.get_char(0) == 'V' && s.get_char(1) == 'e' && s.get_char(2) == 'c'
            && s.get_char(3) == '<' {
            if s.get_char(n - 1) == '>' {
                let inner = s.substring_char(4, n - 1);
                match EventArg::from_str(inner) {
                    Ok(arg) => Ok(EventArg::Vec(Box::new(arg))),
                    Err(e) => Err(e),
                }
            } else {
                Err(Error::InvalidEventArg(s.to_owned(), "Expected closing `>` for `Vec`"))
            }
        } else if n > 0 && s.get_char(0) == '(' {
            if s.get_char(n - 1) == ')' {
                let list = s.substring_char(1, n - 1);
                let m: usize = n - 2;
                let mut fields: Vec<EventArg> = Vec::new();
                let mut start: usize = 0;
                let mut failure: Option<Error> = None;
                let mut done: bool = false;
                proof {
                    assert(list@.skip(0) =~= list@);
                    assert(views(fields@) + Seq::<EventArgView>::empty() =~= views(fields@));
                }
                while !done
                    invariant
                        m == list@.len(),
                        m < s@.len(),
                        start <= m,
                        match failure {
                            Some(e) => done && parse_fields(list@) == Err::<
                                Seq<EventArgView>,
                                ErrorView,
                            >(e@),
                            None => if done {
                                parse_fields(list@) == Ok::<Seq<EventArgView>, ErrorView>(
                                    views(fields@),
                                )
                            } else {
                                parse_fields(list@) == prepend(
                                    views(fields@),
                                    parse_fields(list@.skip(start as int)),
                                )
                            },
                        },
                    decreases (if done { 0int } else { 1 + m - start }),
                {
                    let comma = find_char(list, start, ',');
                    let part = trim_text(list.substring_char(start, comma));
                    let ghost from = start;
                    let ghost rest = list@.skip(start as int);
                    proof {
                        lemma_find_bound(rest, ',');
                        lemma_trim_len(rest.take(comma - start));
                        assert(rest.take(comma - start) =~= list@.subrange(
                            start as int,
                            comma as int,
                        ));
                    }
                    match EventArg::from_str(part) {
                        Err(e) => {
                            failure = Some(e);
                            done = true;
                        },
                        Ok(arg) => {
                            let ghost before = views(fields@);
                            fields.push(arg);
                            proof {
                                assert(views(fields@) =~= before + seq![arg@]);
                            }
                            if comma >= m {
                                done = true;
                                proof {
                                    assert(before + seq![arg@] =~= views(fields@));
                                }
                            } else {
                                start = comma + 1;
                                proof {
                                    assert(rest.skip(comma - from + 1) =~= list@.skip(comma + 1));
                                    let tail = parse_fields(list@.skip(start as int));
                                    if let Ok(t) = tail {
                                        assert(before + (seq![arg@] + t) =~= views(fields@) + t);
                                    }
                                }
                            }
                        },
                    }
                }
                match failure {
                    Some(e) => Err(e),
                    None => {
                        let arg = EventArg::Tuple(fields);
                        proof {
                            assert(arg@->Tuple_0 =~= views(fields@));
                        }
                        Ok(arg)
                    },
                }
            } else {
                Err(Error::InvalidEventArg(s.to_owned(), "Expecting closing `)` for tuple"))
            }
        } else {
            Ok(EventArg::Primitive(s.to_owned()))
        }
    }

    /// The names of the primitive leaves, depth first and left to right.
    pub fn primitives(&self) -> (names: Vec<String>)
        ensures
            names.deep_view() == self@.primitives(),
        decreases self,
    {
        match self {
            EventArg::Primitive(name) => {
                let mut names: Vec<String> = Vec::new();
                names.push(name.clone());
                proof {
                    assert(names.deep_view() =~= seq![name@]);
                }
                names
            },
            EventArg::Vec(inner) => inner.primitives(),
            EventArg::Tuple(fields) => {
                let mut names: Vec<String> = Vec::new();
                let mut i: usize = 0;
                proof {
                    assert(names.deep_view() =~= Seq::<Seq<char>>::empty());
                    assert(views(fields@).take(0) =~= Seq::<EventArgView>::empty());
                }
                while i < fields.len()
                    invariant
                        *self is Tuple,
                        self->Tuple_0 == *fields,
                        i <= fields.len(),
                        names.deep_view() == leaves(views(fields@).take(i as int)),
                    decreases fields.len() - i,
                {
                    proof {
                        assert(decreases_to!(*fields => fields[i as int]));
                    }
                    let mut more = fields[i].primitives();
                    let ghost before = names.deep_view();
                    let ghost added = more.deep_view();
                    names.append(&mut more);
                    proof {
                        assert(names.deep_view() =~= before + added);
                        let upto = views(fields@).take(i + 1);
                        assert(upto.drop_last() =~= views(fields@).take(i as int));
                        assert(upto.last() == fields@[i as int]@);
                    }
                    i = i + 1;
                }
                proof {
                    assert(views(fields@).take(fields.len() as int) =~= views(fields@));
                    assert(self@->Tuple_0 =~= views(fields@));
                }
                names
            },
        }
    }
}

} // verus!
