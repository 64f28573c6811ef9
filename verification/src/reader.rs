use vstd::prelude::*;

use crate::error::{err_model, CompileError, ErrModel};
use crate::text::{
    name_run, run_to, scan_name, scan_to, scan_ws, trim_str, trimmed, ws_run,
};

verus! {

/// One structural event of the markup text. A self-closing element produces
/// an `Open` event immediately followed by a `Close` event.
#[derive(Debug, PartialEq)]
pub enum MarkupEvent {
    Open { name: String, attributes: Vec<(String, String)>, position: usize },
    Close { name: String, position: usize },
    Text { text: String, position: usize },
}

/// Mathematical model of a `MarkupEvent`.
pub enum EventModel {
    Open { name: Seq<char>, attributes: Seq<(Seq<char>, Seq<char>)>, position: int },
    Close { name: Seq<char>, position: int },
    Text { text: Seq<char>, position: int },
}

pub open spec fn event_model(e: MarkupEvent) -> EventModel {
    match e {
        MarkupEvent::Open { name, attributes, position } => EventModel::Open {
            name: name@,
            attributes: attributes.deep_view(),
            position: position as int,
        },
        MarkupEvent::Close { name, position } => EventModel::Close {
            name: name@,
            position: position as int,
        },
        MarkupEvent::Text { text, position } => EventModel::Text {
            text: text@,
            position: position as int,
        },
    }
}

pub open spec fn events_model(s: Seq<MarkupEvent>) -> Seq<EventModel> {
    s.map_values(|e: MarkupEvent| event_model(e))
}

// ---------------------------------------------------------------------------
// The grammar, as a specification
// ---------------------------------------------------------------------------

/// Reads the attribute list of an open tag, starting at the first character
/// after the tag name. On success yields the attributes in source order, the
/// position just after the closing `>`, and whether the tag was self-closing.
pub open spec fn spec_attrs(s: Seq<char>, i: int) -> Result<
    (Seq<(Seq<char>, Seq<char>)>, int, bool),
    ErrModel,
>
    decreases s.len() - i,
{
    let w = i + ws_run(s, i);
    if w >= s.len() {
        Err(ErrModel::MalformedMarkup { position: w })
    } else if s[w] == '>' {
        Ok((Seq::empty(), w + 1, false))
    } else if s[w] == '/' {
        if w + 1 < s.len() && s[w + 1] == '>' {
            Ok((Seq::empty(), w + 2, true))
        } else {
            Err(ErrModel::MalformedMarkup { position: w })
        }
    } else {
        let ke = w + name_run(s, w);
        if ke == w {
            Err(ErrModel::MalformedMarkup { position: w })
        } else {
            let q = ke + ws_run(s, ke);
            if q >= s.len() || s[q] != '=' {
                Err(ErrModel::MalformedMarkup { position: q })
            } else {
                let v0 = q + 1 + ws_run(s, q + 1);
                if v0 >= s.len() || (s[v0] != '"' && s[v0] != '\'') {
                    Err(ErrModel::MalformedMarkup { position: v0 })
                } else {
                    let ve = v0 + 1 + run_to(s, v0 + 1, s[v0]);
                    if ve >= s.len() {
                        Err(ErrModel::MalformedMarkup { position: v0 })
                    } else {
                        match spec_attrs(s, ve + 1) {
                            Ok((rest, j, sc)) => Ok(
                                (
                                    seq![(s.subrange(w, ke), s.subrange(v0 + 1, ve))] + rest,
                                    j,
                                    sc,
                                ),
                            ),
                            Err(e) => Err(e),
                        }
                    }
                }
            }
        }
    }
}

/// On success the attribute reader always advances past `i`.
pub proof fn lemma_spec_attrs_advances(s: Seq<char>, i: int)
    ensures
        match spec_attrs(s, i) {
            Ok((_, j, _)) => i < j <= s.len(),
            Err(_) => true,
        },
    decreases s.len() - i,
{
    let w = i + ws_run(s, i);
    if w < s.len() && s[w] != '>' && !(s[w] == '/') && w + name_run(s, w) != w {
        let ke = w + name_run(s, w);
        let q = ke + ws_run(s, ke);
        if !(q >= s.len() || s[q] != '=') {
            let v0 = q + 1 + ws_run(s, q + 1);
            if !(v0 >= s.len() || (s[v0] != '"' && s[v0] != '\'')) {
                let ve = v0 + 1 + run_to(s, v0 + 1, s[v0]);
                if ve < s.len() {
                    lemma_spec_attrs_advances(s, ve + 1);
                }
            }
        }
    }
}

/// Reads the event stream of the markup text from position `i` onward.
///
/// The grammar: `<name attr="value" ...>` opens an element, `<name .../>`
/// opens and closes one, `</name>` closes one, and any other text is kept as
/// a text run with its surrounding whitespace removed (a run of whitespace
/// alone produces no event). Attribute values may use double or single
/// quotes and are taken verbatim.
pub open spec fn spec_events(s: Seq<char>, i: int) -> Result<Seq<EventModel>, ErrModel>
    decreases s.len() - i,
{
    if i < 0 || i >= s.len() {
        Ok(Seq::empty())
    } else if s[i] == '<' {
        if i + 1 < s.len() && s[i + 1] == '/' {
            let ne = i + 2 + name_run(s, i + 2);
            if ne == i + 2 {
                Err(ErrModel::MalformedMarkup { position: i })
            } else {
                let w = ne + ws_run(s, ne);
                if w >= s.len() || s[w] != '>' {
                    Err(ErrModel::MalformedMarkup { position: i })
                } else {
                    match spec_events(s, w + 1) {
                        Ok(rest) => Ok(
                            seq![
                                EventModel::Close { name: s.subrange(i + 2, ne), position: i },
                            ] + rest,
                        ),
                        Err(e) => Err(e),
                    }
                }
            }
        } else {
            let ne = i + 1 + name_run(s, i + 1);
            if ne == i + 1 {
                Err(ErrModel::MalformedMarkup { position: i })
            } else {
                match spec_attrs(s, ne) {
                    Err(e) => Err(e),
                    Ok((attributes, j, self_closing)) => {
                        proof {
                            lemma_spec_attrs_advances(s, ne);
                        }
                        match spec_events(s, j) {
                            Err(e) => Err(e),
                            Ok(rest) => {
                                let name = s.subrange(i + 1, ne);
                                let head = if self_closing {
                                    seq![
                                        EventModel::Open { name, attributes, position: i },
                                        EventModel::Close { name, position: i },
                                    ]
                                } else {
                                    seq![EventModel::Open { name, attributes, position: i }]
                                };
                                Ok(head + rest)
                            },
                        }
                    },
                }
            }
        }
    } else {
        let te = i + run_to(s, i, '<');
        let t = trimmed(s.subrange(i, te));
        proof {
            assert(run_to(s, i, '<') >= 1);
            crate::text::lemma_run_to_bound(s, i, '<');
        }
        match spec_events(s, te) {
            Ok(rest) => Ok(
                if t.len() == 0 {
                    rest
                } else {
                    seq![EventModel::Text { text: t, position: i }] + rest
                },
            ),
            Err(e) => Err(e),
        }
    }
}

// ---------------------------------------------------------------------------
// Executable reader
// ---------------------------------------------------------------------------

fn take_attrs(s: &str, n: usize, i: usize) -> (r: Result<
    (Vec<(String, String)>, usize, bool),
    CompileError,
>)
    requires
        n == s@.len(),
        i <= n,
    ensures
        match r {
            Ok((attributes, j, sc)) => {
                &&& spec_attrs(s@, i as int) == Ok::<_, ErrModel>(
                    (attributes.deep_view(), j as int, sc),
                )
                &&& i < j <= n
            },
            Err(e) => spec_attrs(s@, i as int) == Err::<
                (Seq<(Seq<char>, Seq<char>)>, int, bool),
                _,
            >(err_model(e)),
        },
    decreases n - i,
{
    let w = scan_ws(s, n, i);
    if w >= n {
        return Err(CompileError::MalformedMarkup { position: w });
    }
    let cw = s.get_char(w);
    if cw == '>' {
        let no_attrs: Vec<(String, String)> = Vec::new();
        proof {
            assert(no_attrs.deep_view() =~= Seq::<(Seq<char>, Seq<char>)>::empty());
        }
        return Ok((no_attrs, w + 1, false));
    }
    if cw == '/' {
        if w + 1 < n && s.get_char(w + 1) == '>' {
            let no_attrs: Vec<(String, String)> = Vec::new();
            proof {
                assert(no_attrs.deep_view() =~= Seq::<(Seq<char>, Seq<char>)>::empty());
            }
            return Ok((no_attrs, w + 2, true));
        } else {
            return Err(CompileError::MalformedMarkup { position: w });
        }
    }
    let ke = scan_name(s, n, w);
    if ke == w {
        return Err(CompileError::MalformedMarkup { position: w });
    }
    let q = scan_ws(s, n, ke);
    if q >= n || s.get_char(q) != '=' {
        return Err(CompileError::MalformedMarkup { position: q });
    }
    let v0 = scan_ws(s, n, q + 1);
    if v0 >= n {
        return Err(CompileError::MalformedMarkup { position: v0 });
    }
    let quote = s.get_char(v0);
    if quote != '"' && quote != '\'' {
        return Err(CompileError::MalformedMarkup { position: v0 });
    }
    let ve = scan_to(s, n, v0 + 1, quote);
    if ve >= n {
        return Err(CompileError::MalformedMarkup { position: v0 });
    }
    let key = s.substring_char(w, ke).to_owned();
    let value = s.substring_char(v0 + 1, ve).to_owned();
    match take_attrs(s, n, ve + 1) {
        Ok((mut attributes, j, sc)) => {
            let ghost tail = attributes.deep_view();
            attributes.insert(0, (key, value));
            proof {
                assert(attributes.deep_view() =~= seq![
                    (s@.subrange(w as int, ke as int), s@.subrange(v0 + 1, ve as int)),
                ] + tail);
            }
            Ok((attributes, j, sc))
        },
        Err(e) => Err(e),
    }
}

/// Reads the whole event stream of the markup text.
pub fn take_events(s: &str, n: usize, i: usize) -> (r: Result<Vec<MarkupEvent>, CompileError>)
    requires
        n == s@.len(),
        i <= n,
    ensures
        match r {
            Ok(events) => spec_events(s@, i as int) == Ok::<_, ErrModel>(events_model(events@)),
            Err(e) => spec_events(s@, i as int) == Err::<Seq<EventModel>, _>(err_model(e)),
        },
    decreases n - i,
{
    if i >= n {
        let no_events: Vec<MarkupEvent> = Vec::new();
        proof {
            assert(events_model(no_events@) =~= Seq::<EventModel>::empty());
        }
        return Ok(no_events);
    }
    let c = s.get_char(i);
    if c == '<' {
        if i + 1 < n && s.get_char(i + 1) == '/' {
            let ne = scan_name(s, n, i + 2);
            if ne == i + 2 {
                return Err(CompileError::MalformedMarkup { position: i });
            }
            let w = scan_ws(s, n, ne);
            if w >= n || s.get_char(w) != '>' {
                return Err(CompileError::MalformedMarkup { position: i });
            }
            let name = s.substring_char(i + 2, ne).to_owned();
            match take_events(s, n, w + 1) {
                Ok(mut events) => {
                    let ghost tail = events_model(events@);
                    let ev = MarkupEvent::Close { name, position: i };
                    events.insert(0, ev);
                    proof {
                        assert(events_model(events@) =~= seq![event_model(ev)] + tail);
                    }
                    Ok(events)
                },
                Err(e) => Err(e),
            }
        } else {
            let ne = scan_name(s, n, i + 1);
            if ne == i + 1 {
                return Err(CompileError::MalformedMarkup { position: i });
            }
            let name = s.substring_char(i + 1, ne).to_owned();
            match take_attrs(s, n, ne) {
                Err(e) => Err(e),
                Ok((attributes, j, self_closing)) => {
                    match take_events(s, n, j) {
                        Err(e) => Err(e),
                        Ok(mut events) => {
                            let ghost tail = events_model(events@);
                            if self_closing {
                                let close = MarkupEvent::Close {
                                    name: name.clone(),
                                    position: i,
                                };
                                events.insert(0, close);
                                let open = MarkupEvent::Open { name, attributes, position: i };
                                events.insert(0, open);
                                proof {
                                    assert(events_model(events@) =~= seq![
                                        event_model(open),
                                        event_model(close),
                                    ] + tail);
                                }
                            } else {
                                let open = MarkupEvent::Open { name, attributes, position: i };
                                events.insert(0, open);
                                proof {
                                    assert(events_model(events@) =~= seq![event_model(open)]
                                        + tail);
                                }
                            }
                            Ok(events)
                        },
                    }
                },
            }
        }
    } else {
        let te = scan_to(s, n, i, '<');
        let raw = s.substring_char(i, te);
        let t = trim_str(raw, te - i);
        match take_events(s, n, te) {
            Ok(mut events) => {
                if t.unicode_len() == 0 {
                    proof {
                        assert(trimmed(s@.subrange(i as int, te as int)).len() == 0);
                    }
                    Ok(events)
                } else {
                    let ghost tail = events_model(events@);
                    let ev = MarkupEvent::Text { text: t.to_owned(), position: i };
                    events.insert(0, ev);
                    proof {
                        assert(events_model(events@) =~= seq![event_model(ev)] + tail);
                    }
                    Ok(events)
                }
            },
            Err(e) => Err(e),
        }
    }
}

} // verus!
