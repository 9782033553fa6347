//! Line-ending normalization.
//!
//! Offsets reported for a document count the characters of its normalized form, in which
//! every carriage-return/line-feed pair has become a single line feed.

use vstd::prelude::*;
use vstd::std_specs::iter::IteratorSpec;

verus! {

/// The text with every carriage-return/line-feed pair collapsed to a single line feed,
/// pairs being taken from the left.
pub open spec fn normalized(t: Seq<char>) -> Seq<char>
    decreases t.len(),
{
    if t.len() == 0 {
        t
    } else if t.len() >= 2 && t[0] == '\r' && t[1] == '\n' {
        seq!['\n'] + normalized(t.skip(2))
    } else {
        seq![t[0]] + normalized(t.skip(1))
    }
}

/// The text with every line feed written as a carriage return and a line feed.
pub open spec fn with_crlf(t: Seq<char>) -> Seq<char>
    decreases t.len(),
{
    if t.len() == 0 {
        t
    } else if t[0] == '\n' {
        seq!['\r', '\n'] + with_crlf(t.skip(1))
    } else {
        seq![t[0]] + with_crlf(t.skip(1))
    }
}

/// Whether no line feed of `t` follows a carriage return: the text is written with single
/// line feeds throughout.
pub open spec fn has_no_crlf(t: Seq<char>) -> bool {
    forall|i: int| 0 <= i && i + 1 < t.len() ==> !(t[i] == '\r' && #[trigger] t[i + 1] == '\n')
}

/// A carriage return that has been read but not yet written out.
spec fn carried(pending: bool) -> Seq<char> {
    if pending {
        seq!['\r']
    } else {
        Seq::empty()
    }
}

/// A pair at the front becomes one line feed.
proof fn lemma_normalized_pair(rest: Seq<char>)
    ensures
        normalized(seq!['\r', '\n'] + rest) == seq!['\n'] + normalized(rest),
{
    let t = seq!['\r', '\n'] + rest;
    assert(t.skip(2) =~= rest);
}

/// A character at the front that begins no pair is kept.
proof fn lemma_normalized_single(c: char, rest: Seq<char>)
    requires
        !(c == '\r' && rest.len() > 0 && rest[0] == '\n'),
    ensures
        normalized(seq![c] + rest) == seq![c] + normalized(rest),
{
    let t = seq![c] + rest;
    assert(t.skip(1) =~= rest);
}

/// Normalizing makes no text longer.
pub proof fn lemma_normalized_no_longer(t: Seq<char>)
    ensures
        normalized(t).len() <= t.len(),
    decreases t.len(),
{
    if t.len() >= 2 && t[0] == '\r' && t[1] == '\n' {
        lemma_normalized_no_longer(t.skip(2));
    } else if t.len() > 0 {
        lemma_normalized_no_longer(t.skip(1));
    }
}

/// Writing line feeds as pairs and normalizing gives the text back.
pub proof fn lemma_crlf_round_trip(t: Seq<char>)
    ensures
        normalized(with_crlf(t)) == t,
    decreases t.len(),
{
    if t.len() > 0 {
        let rest = t.skip(1);
        lemma_crlf_round_trip(rest);
        if t[0] == '\n' {
            lemma_normalized_pair(with_crlf(rest));
        } else {
            // what follows begins with no line feed: each one of `rest` has become a pair
            lemma_normalized_single(t[0], with_crlf(rest));
        }
    }
}

/// A text written with single line feeds throughout is its own normalized form.
pub proof fn lemma_normalized_without_crlf(t: Seq<char>)
    requires
        has_no_crlf(t),
    ensures
        normalized(t) == t,
    decreases t.len(),
{
    if t.len() > 0 {
        let rest = t.skip(1);
        assert(has_no_crlf(rest));
        lemma_normalized_without_crlf(rest);
    }
}

/// A document written with single line feeds and the same document written with pairs
/// have one normalized form, so every offset into it has one line and one column.
pub proof fn lemma_line_endings_agree(t: Seq<char>)
    requires
        has_no_crlf(t),
    ensures
        normalized(with_crlf(t)) == normalized(t),
{
    lemma_crlf_round_trip(t);
    lemma_normalized_without_crlf(t);
}

/// The characters of `text` in normalized form.
pub fn normalized_chars(text: &str) -> (out: Vec<char>)
    ensures
        out@ == normalized(text@),
{
    let mut out: Vec<char> = Vec::new();
    let mut pending = false;
    let mut it = text.chars();
    loop
        invariant
            it.decrease() is Some,
            normalized(text@) == out@ + normalized(carried(pending) + it.remaining()),
        ensures
            normalized(text@) == out@ + carried(pending),
        decreases it.decrease()->0,
    {
        let ghost rest = it.remaining();
        match it.next() {
            None => {
                proof {
                    if pending {
                        lemma_normalized_single('\r', Seq::empty());
                    }
                }
                break ;
            },
            Some(c) => {
                let ghost tail = it.remaining();
                proof {
                    assert(rest =~= seq![c] + tail);
                }
                if pending {
                    if c == '\n' {
                        out.push('\n');
                        pending = false;
                        proof {
                            assert(seq!['\r'] + rest =~= seq!['\r', '\n'] + tail);
                            lemma_normalized_pair(tail);
                        }
                    } else {
                        out.push('\r');
                        proof {
                            lemma_normalized_single('\r', rest);
                        }
                        if c != '\r' {
                            out.push(c);
                            pending = false;
                            proof {
                                lemma_normalized_single(c, tail);
                            }
                        }
                    }
                } else {
                    if c == '\r' {
                        pending = true;
                    } else {
                        out.push(c);
                        proof {
                            lemma_normalized_single(c, tail);
                        }
                    }
                }
            },
        }
    }
    if pending {
        out.push('\r');
    }
    out
}

} // verus!
