//! Arithmetic validation of an equation's plain text: the text must split at
//! `=` into two or more pieces, each an integer expression over `+`, `-`
//! (binary, and unary minus) and decimal numbers, all of one value.
//!
//! Number values and every intermediate sum must fit `i64`; a piece that
//! falls outside that range does not evaluate.

use vstd::prelude::*;

verus! {

/// One character is an ASCII digit.
pub open spec fn is_digit(c: char) -> bool {
    48 <= c as int && c as int <= 57
}

/// The value of an ASCII digit.
pub open spec fn digit_value(c: char) -> int {
    c as int - 48
}

/// The running state of reading one `=`-free piece left to right.
pub struct EvalState {
    /// No failure so far.
    pub ok: bool,
    /// The value of the finished terms.
    pub acc: int,
    /// `1` or `-1`: the binary operator waiting for the next term.
    pub pending: int,
    /// `1` or `-1`: the effect of the unary minuses before the current number.
    pub usign: int,
    /// The digits read of the current number, once one has started.
    pub cur: Option<int>,
}

/// The state before any character.
pub open spec fn eval_start() -> EvalState {
    EvalState { ok: true, acc: 0, pending: 1, usign: 1, cur: None }
}

/// The state after a failure; every later character keeps it failed.
pub open spec fn eval_failed() -> EvalState {
    EvalState { ok: false, acc: 0, pending: 1, usign: 1, cur: None }
}

/// Close the current number and fold it into the accumulator; nothing to
/// close, or a value outside `i64`, is a failure.
pub open spec fn eval_close(st: EvalState) -> Option<int> {
    match st.cur {
        Option::Some(digits) => {
            let total = st.acc + st.pending * st.usign * digits;
            if i64::MIN <= total && total <= i64::MAX {
                Option::Some(total)
            } else {
                Option::None
            }
        },
        Option::None => Option::None,
    }
}

/// One character advances the state: digits extend the current number, `+`
/// and `-` close it as a term, a `-` before a number flips the sign once
/// more, a `+` before a number fails, anything else fails.
pub open spec fn eval_step(st: EvalState, c: char) -> EvalState {
    if !st.ok {
        st
    } else if is_digit(c) {
        let base = match st.cur {
            Option::Some(digits) => digits,
            Option::None => 0int,
        };
        let digits = base * 10 + digit_value(c);
        if digits <= i64::MAX {
            EvalState { cur: Option::Some(digits), ..st }
        } else {
            eval_failed()
        }
    } else if c == '+' || c == '-' {
        match st.cur {
            Option::Some(_) => match eval_close(st) {
                Option::Some(total) => EvalState {
                    ok: true,
                    acc: total,
                    pending: if c == '+' {
                        1int
                    } else {
                        -1int
                    },
                    usign: 1,
                    cur: Option::None,
                },
                Option::None => eval_failed(),
            },
            Option::None => if c == '-' {
                EvalState { usign: -st.usign, ..st }
            } else {
                eval_failed()
            },
        }
    } else {
        eval_failed()
    }
}

/// The state after reading all of `s`.
pub open spec fn eval_run(s: Seq<char>) -> EvalState
    decreases s.len(),
{
    if s.len() == 0 {
        eval_start()
    } else {
        eval_step(eval_run(s.drop_last()), s.last())
    }
}

/// The integer value of one piece, where it reads as an expression.
pub open spec fn piece_value(s: Seq<char>) -> Option<int> {
    let st = eval_run(s);
    if st.ok {
        eval_close(st)
    } else {
        Option::None
    }
}

/// The pieces of a text, split at every `=`; one more piece than there are
/// `=` characters, empty pieces kept.
pub open spec fn pieces_of(s: Seq<char>) -> Seq<Seq<char>>
    decreases s.len(),
{
    if s.len() == 0 {
        seq![Seq::<char>::empty()]
    } else if s[0] == '=' {
        seq![Seq::<char>::empty()] + pieces_of(s.drop_first())
    } else {
        let rest = pieces_of(s.drop_first());
        rest.update(0, seq![s[0]] + rest[0])
    }
}

/// A text is a valid equation when it splits at `=` into two or more pieces
/// that all evaluate to the same integer.
pub open spec fn equation_valid(text: Seq<char>) -> bool {
    let ps = pieces_of(text);
    ps.len() >= 2 && piece_value(ps[0]) is Some && (forall|k: int|
        0 <= k < ps.len() ==> piece_value(#[trigger] ps[k]) == piece_value(ps[0]))
}

/// A split always has at least one piece.
proof fn lemma_pieces_nonempty(s: Seq<char>)
    ensures
        pieces_of(s).len() >= 1,
    decreases s.len(),
{
    if s.len() > 0 && s[0] != '=' {
        lemma_pieces_nonempty(s.drop_first());
    }
}

/// A text without `=` is a single piece.
proof fn lemma_pieces_no_eq(s: Seq<char>)
    requires
        forall|j: int| 0 <= j < s.len() ==> s[j] != '=',
    ensures
        pieces_of(s) == seq![s],
    decreases s.len(),
{
    if s.len() == 0 {
        assert(Seq::<char>::empty() =~= s);
    } else {
        assert(forall|j: int| 0 <= j < s.drop_first().len() ==> s.drop_first()[j] != '=');
        lemma_pieces_no_eq(s.drop_first());
        assert(pieces_of(s) =~= seq![seq![s[0]] + s.drop_first()]);
        assert(seq![s[0]] + s.drop_first() =~= s);
        assert(pieces_of(s) =~= seq![s]);
    }
}

/// A text whose first `=` sits at `k` splits into the piece before it and
/// the pieces of what follows it.
proof fn lemma_pieces_split_at(s: Seq<char>, k: int)
    requires
        0 <= k < s.len(),
        s[k] == '=',
        forall|j: int| 0 <= j < k ==> s[j] != '=',
    ensures
        pieces_of(s) == seq![s.take(k)] + pieces_of(s.skip(k + 1)),
    decreases k,
{
    if k == 0 {
        assert(s.take(0) =~= Seq::<char>::empty());
        assert(s.skip(1) =~= s.drop_first());
        assert(pieces_of(s) == seq![Seq::<char>::empty()] + pieces_of(s.drop_first()));
    } else {
        let rest = s.drop_first();
        assert(rest[k - 1] == '=');
        assert(forall|j: int| 0 <= j < k - 1 ==> rest[j] != '=');
        lemma_pieces_split_at(rest, k - 1);
        lemma_pieces_nonempty(rest.skip(k));
        assert(rest.take(k - 1) =~= s.take(k).drop_first());
        assert(rest.skip(k) =~= s.skip(k + 1));
        let tail_pieces = pieces_of(rest);
        assert(tail_pieces == seq![s.take(k).drop_first()] + pieces_of(s.skip(k + 1)));
        assert(tail_pieces[0] == s.take(k).drop_first());
        assert(pieces_of(s) == tail_pieces.update(0, seq![s[0]] + tail_pieces[0]));
        assert(seq![s[0]] + s.take(k).drop_first() =~= s.take(k));
        assert(pieces_of(s) =~= seq![s.take(k)] + pieces_of(s.skip(k + 1)));
    }
}

/// Once a prefix has failed, the whole piece has failed.
proof fn lemma_eval_failed_persists(s: Seq<char>, i: int)
    requires
        0 <= i <= s.len(),
        !eval_run(s.take(i)).ok,
    ensures
        !eval_run(s).ok,
    decreases s.len() - i,
{
    if i < s.len() {
        assert(s.take(i + 1).drop_last() =~= s.take(i));
        assert(s.take(i + 1).last() == s[i]);
        assert(!eval_run(s.take(i + 1)).ok);
        lemma_eval_failed_persists(s, i + 1);
    } else {
        assert(s.take(i) =~= s);
    }
}

/// `Some` of the value, as mathematical integers.
pub open spec fn opt_int(o: Option<i64>) -> Option<int> {
    match o {
        Option::Some(v) => Option::Some(v as int),
        Option::None => Option::None,
    }
}

/// Evaluate the piece `text[start..end]` as an integer expression.
fn eval_piece(text: &Vec<char>, start: usize, end: usize) -> (r: Option<i64>)
    requires
        start <= end <= text@.len(),
    ensures
        opt_int(r) == piece_value(text@.subrange(start as int, end as int)),
{
    let ghost piece = text@.subrange(start as int, end as int);
    let mut acc: i64 = 0;
    let mut pending_minus: bool = false;
    let mut unary_minus: bool = false;
    let mut cur: Option<i64> = None;
    let mut j: usize = start;
    while j < end
        invariant
            start <= j <= end <= text@.len(),
            piece == text@.subrange(start as int, end as int),
            eval_run(piece.take(j - start)).ok,
            eval_run(piece.take(j - start)).acc == acc as int,
            eval_run(piece.take(j - start)).pending == (if pending_minus {
                -1int
            } else {
                1int
            }),
            eval_run(piece.take(j - start)).usign == (if unary_minus {
                -1int
            } else {
                1int
            }),
            match cur {
                Option::Some(v) => v >= 0 && eval_run(piece.take(j - start)).cur
                    == Option::Some(v as int),
                Option::None => eval_run(piece.take(j - start)).cur is None,
            },
        decreases end - j,
    {
        let ghost st = eval_run(piece.take(j - start));
        let c = text[j];
        proof {
            assert(piece.take(j + 1 - start).drop_last() =~= piece.take(j - start));
            assert(piece.take(j + 1 - start).last() == piece[j - start]);
            assert(piece[j - start] == c);
            assert(eval_run(piece.take(j + 1 - start)) == eval_step(st, c));
        }
        let ghost st2 = eval_step(st, c);
        let digit_of: Option<i64> = match c {
            '0' => Some(0),
            '1' => Some(1),
            '2' => Some(2),
            '3' => Some(3),
            '4' => Some(4),
            '5' => Some(5),
            '6' => Some(6),
            '7' => Some(7),
            '8' => Some(8),
            '9' => Some(9),
            _ => None,
        };
        if let Option::Some(digit) = digit_of {
            proof {
                assert(is_digit(c));
            }
            let base: i64 = match cur {
                Option::Some(v) => v,
                Option::None => 0,
            };
            let extended = match base.checked_mul(10) {
                Option::Some(m) => m.checked_add(digit),
                Option::None => None,
            };
            match extended {
                Option::Some(v) => {
                    proof {
                        assert(digit_value(c) == digit as int);
                        assert(v as int == base as int * 10 + digit as int);
                        assert(st2.ok && st2.cur == Option::Some(v as int));
                        assert(st2.acc == st.acc && st2.pending == st.pending && st2.usign
                            == st.usign);
                    }
                    cur = Option::Some(v);
                },
                Option::None => {
                    proof {
                        lemma_eval_failed_persists(piece, j + 1 - start);
                    }
                    return None;
                },
            }
        } else if c == '+' || c == '-' {
            match cur {
                Option::Some(v) => {
                    proof {
                        assert(st.acc + st.pending * st.usign * (v as int) == (if pending_minus {
                            acc as int - (if unary_minus {
                                -(v as int)
                            } else {
                                v as int
                            })
                        } else {
                            acc as int + (if unary_minus {
                                -(v as int)
                            } else {
                                v as int
                            })
                        })) by (nonlinear_arith)
                            requires
                                st.pending == (if pending_minus {
                                    -1int
                                } else {
                                    1int
                                }),
                                st.usign == (if unary_minus {
                                    -1int
                                } else {
                                    1int
                                }),
                                st.acc == acc as int,
                        ;
                    }
                    let term: i64 = if unary_minus {
                        -v
                    } else {
                        v
                    };
                    let total = if pending_minus {
                        acc.checked_sub(term)
                    } else {
                        acc.checked_add(term)
                    };
                    match total {
                        Option::Some(t) => {
                            acc = t;
                            pending_minus = c == '-';
                            unary_minus = false;
                            cur = Option::None;
                        },
                        Option::None => {
                            proof {
                                lemma_eval_failed_persists(piece, j + 1 - start);
                            }
                            return None;
                        },
                    }
                },
                Option::None => {
                    if c == '-' {
                        unary_minus = !unary_minus;
                    } else {
                        proof {
                            lemma_eval_failed_persists(piece, j + 1 - start);
                        }
                        return None;
                    }
                },
            }
        } else {
            proof {
                lemma_eval_failed_persists(piece, j + 1 - start);
            }
            return None;
        }
        j = j + 1;
    }
    proof {
        assert(piece.take(end - start) =~= piece);
    }
    let ghost st = eval_run(piece);
    match cur {
        Option::Some(v) => {
            proof {
                assert(st.acc + st.pending * st.usign * (v as int) == (if pending_minus {
                    acc as int - (if unary_minus {
                        -(v as int)
                    } else {
                        v as int
                    })
                } else {
                    acc as int + (if unary_minus {
                        -(v as int)
                    } else {
                        v as int
                    })
                })) by (nonlinear_arith)
                    requires
                        st.pending == (if pending_minus {
                            -1int
                        } else {
                            1int
                        }),
                        st.usign == (if unary_minus {
                            -1int
                        } else {
                            1int
                        }),
                        st.acc == acc as int,
                ;
            }
            let term: i64 = if unary_minus {
                -v
            } else {
                v
            };
            let total = if pending_minus {
                acc.checked_sub(term)
            } else {
                acc.checked_add(term)
            };
            total
        },
        Option::None => None,
    }
}

/// Whether `text` is a valid equation: two or more `=`-separated pieces,
/// each evaluating, all to the same integer.
pub fn validate_text(text: &Vec<char>) -> (r: bool)
    ensures
        r == equation_valid(text@),
{
    let ghost whole = text@;
    let ghost mut done: Seq<Seq<char>> = Seq::empty();
    let mut piece_start: usize = 0;
    let mut pieces_done: usize = 0;
    let mut first_value: i64 = 0;
    let mut i: usize = 0;
    proof {
        assert(whole.skip(0) =~= whole);
        assert(done + pieces_of(whole) =~= pieces_of(whole));
    }
    while i < text.len()
        invariant
            piece_start <= i <= text@.len(),
            pieces_done <= i,
            whole == text@,
            pieces_done == done.len(),
            pieces_of(whole) == done + pieces_of(whole.skip(piece_start as int)),
            forall|j: int| piece_start <= j < i ==> whole[j] != '=',
            pieces_done >= 1 ==> piece_value(done[0]) == Option::Some(first_value as int),
            forall|k: int|
                0 <= k < done.len() ==> piece_value(#[trigger] done[k]) == Option::Some(
                    first_value as int,
                ),
        decreases text@.len() - i,
    {
        if text[i] == '=' {
            let value = eval_piece(text, piece_start, i);
            proof {
                assert(whole.skip(piece_start as int)[i - piece_start] == '=');
                assert(forall|j: int|
                    0 <= j < i - piece_start ==> whole.skip(piece_start as int)[j] != '=');
                lemma_pieces_split_at(whole.skip(piece_start as int), i - piece_start);
                assert(whole.skip(piece_start as int).take(i - piece_start) =~= whole.subrange(
                    piece_start as int,
                    i as int,
                ));
                assert(whole.skip(piece_start as int).skip(i - piece_start + 1) =~= whole.skip(
                    i + 1 as int,
                ));
                lemma_pieces_nonempty(whole.skip(i + 1 as int));
            }
            let ghost piece = whole.subrange(piece_start as int, i as int);
            proof {
                assert(pieces_of(whole) == done + (seq![piece] + pieces_of(
                    whole.skip(i + 1 as int),
                )));
                assert(pieces_of(whole)[done.len() as int] == piece);
            }
            match value {
                Option::Some(v) => {
                    if pieces_done == 0 {
                        first_value = v;
                    } else if v != first_value {
                        proof {
                            assert(piece_value(pieces_of(whole)[done.len() as int])
                                != piece_value(pieces_of(whole)[0]));
                        }
                        return false;
                    }
                },
                Option::None => {
                    proof {
                        if done.len() == 0 {
                            assert(piece_value(pieces_of(whole)[0]) is None);
                        } else {
                            assert(piece_value(pieces_of(whole)[done.len() as int])
                                != piece_value(pieces_of(whole)[0]));
                        }
                    }
                    return false;
                },
            }
            proof {
                done = done.push(piece);
                assert(done + pieces_of(whole.skip(i + 1 as int)) =~= (done.drop_last() + (seq![
                    piece,
                ] + pieces_of(whole.skip(i + 1 as int)))));
            }
            pieces_done = pieces_done + 1;
            piece_start = i + 1;
        }
        i = i + 1;
    }
    let value = eval_piece(text, piece_start, text.len());
    proof {
        assert(forall|j: int|
            0 <= j < whole.skip(piece_start as int).len() ==> whole.skip(piece_start as int)[j]
                != '=');
        lemma_pieces_no_eq(whole.skip(piece_start as int));
        assert(whole.skip(piece_start as int) =~= whole.subrange(
            piece_start as int,
            whole.len() as int,
        ));
    }
    let ghost piece = whole.subrange(piece_start as int, whole.len() as int);
    proof {
        assert(pieces_of(whole) =~= done.push(piece));
        assert(pieces_of(whole)[done.len() as int] == piece);
    }
    match value {
        Option::Some(v) => {
            if pieces_done == 0 {
                proof {
                    assert(pieces_of(whole).len() == 1);
                }
                false
            } else if v != first_value {
                proof {
                    assert(piece_value(pieces_of(whole)[done.len() as int]) != piece_value(
                        pieces_of(whole)[0],
                    ));
                }
                false
            } else {
                proof {
                    assert forall|k: int| 0 <= k < pieces_of(whole).len() implies piece_value(
                        #[trigger] pieces_of(whole)[k],
                    ) == piece_value(pieces_of(whole)[0]) by {
                        if k < done.len() {
                            assert(pieces_of(whole)[k] == done[k]);
                        }
                    };
                }
                true
            }
        },
        Option::None => {
            proof {
                if done.len() == 0 {
                    assert(piece_value(pieces_of(whole)[0]) is None);
                } else {
                    assert(piece_value(pieces_of(whole)[done.len() as int]) != piece_value(
                        pieces_of(whole)[0],
                    ));
                }
            }
            false
        },
    }
}

} // verus!
