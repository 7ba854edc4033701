//! The parameter grid searched by walk-forward optimisation: every
//! combination of confidence threshold, position size, stop loss and take
//! profit, in nested order, capped at a fixed number of combinations.
use vstd::prelude::*;

verus! {

/// The most parameter combinations a grid holds.
pub const MAX_PARAM_COMBOS: usize = 100;

/// One grid entry: confidence threshold, position size, stop loss, take profit.
pub type ParamCombo<T> = (T, T, Option<T>, Option<T>);

/// The values searched for one parameter, or the single default when the
/// list is empty.
pub open spec fn or_default<A>(values: Seq<A>, default: A) -> Seq<A> {
    if values.len() == 0 {
        seq![default]
    } else {
        values
    }
}

/// Optional parameters: each value wrapped in `Some`, or a single `None`
/// when the list is empty.
pub open spec fn optional_values<T>(values: Seq<T>) -> Seq<Option<T>> {
    if values.len() == 0 {
        seq![None]
    } else {
        values.map_values(|v: T| Some(v))
    }
}

/// The combinations with fixed confidence, size and stop loss, one per take
/// profit.
pub open spec fn take_profit_row<T>(c: T, p: T, s: Option<T>, tp: Seq<Option<T>>) -> Seq<ParamCombo<T>> {
    tp.map_values(|t: Option<T>| (c, p, s, t))
}

/// The combinations with fixed confidence and size.
pub open spec fn stop_loss_blocks<T>(c: T, p: T, sl: Seq<Option<T>>, tp: Seq<Option<T>>) -> Seq<Seq<ParamCombo<T>>> {
    sl.map_values(|s: Option<T>| take_profit_row(c, p, s, tp))
}

/// The combinations with a fixed confidence threshold.
pub open spec fn position_blocks<T>(c: T, pos: Seq<T>, sl: Seq<Option<T>>, tp: Seq<Option<T>>) -> Seq<Seq<ParamCombo<T>>> {
    pos.map_values(|p: T| stop_loss_blocks(c, p, sl, tp).flatten())
}

/// All combinations, grouped by confidence threshold.
pub open spec fn confidence_blocks<T>(conf: Seq<T>, pos: Seq<T>, sl: Seq<Option<T>>, tp: Seq<Option<T>>) -> Seq<Seq<ParamCombo<T>>> {
    conf.map_values(|c: T| position_blocks(c, pos, sl, tp).flatten())
}

/// The full (uncapped) grid: confidence outermost, take profit innermost.
pub open spec fn full_grid<T>(conf: Seq<T>, pos: Seq<T>, sl: Seq<Option<T>>, tp: Seq<Option<T>>) -> Seq<ParamCombo<T>> {
    confidence_blocks(conf, pos, sl, tp).flatten()
}

/// The grid searched for the given parameter lists and defaults.
pub open spec fn param_grid<T>(
    conf: Seq<T>,
    pos: Seq<T>,
    sl: Seq<T>,
    tp: Seq<T>,
    default_conf: T,
    default_pos: T,
) -> Seq<ParamCombo<T>> {
    let g = full_grid(
        or_default(conf, default_conf),
        or_default(pos, default_pos),
        optional_values(sl),
        optional_values(tp),
    );
    if g.len() <= MAX_PARAM_COMBOS {
        g
    } else {
        g.take(MAX_PARAM_COMBOS as int)
    }
}

proof fn lemma_flatten_skip<A>(s: Seq<Seq<A>>, i: int)
    requires
        0 <= i <= s.len(),
    ensures
        i < s.len() ==> s.skip(i).flatten() == s[i] + s.skip(i + 1).flatten(),
        i == s.len() ==> s.skip(i).flatten() == Seq::<A>::empty(),
{
    if i < s.len() {
        assert(s.skip(i).first() == s[i]);
        assert(s.skip(i).drop_first() =~= s.skip(i + 1));
    } else {
        assert(s.skip(i) =~= Seq::<Seq<A>>::empty());
    }
}

proof fn lemma_flatten_whole<A>(s: Seq<Seq<A>>)
    ensures
        s.skip(0).flatten() == s.flatten(),
{
    assert(s.skip(0) =~= s);
}

proof fn lemma_concat_assoc<A>(a: Seq<A>, b: Seq<A>, c: Seq<A>)
    ensures
        a + (b + c) == (a + b) + c,
{
    assert(a + (b + c) =~= (a + b) + c);
}

fn values_or_default<T: Copy>(values: &Vec<T>, default: T) -> (r: Vec<T>)
    ensures
        r@ == or_default(values@, default),
{
    if values.len() == 0 {
        let mut r: Vec<T> = Vec::new();
        r.push(default);
        proof {
            assert(r@ =~= seq![default]);
        }
        r
    } else {
        let mut r: Vec<T> = Vec::new();
        let mut i: usize = 0;
        while i < values.len()
            invariant
                i <= values@.len(),
                r@ == values@.take(i as int),
            decreases values@.len() - i,
        {
            r.push(values[i]);
            i = i + 1;
            proof {
                assert(r@ =~= values@.take(i as int));
            }
        }
        proof {
            assert(values@.take(values@.len() as int) =~= values@);
        }
        r
    }
}

fn optional_or_none<T: Copy>(values: &Vec<T>) -> (r: Vec<Option<T>>)
    ensures
        r@ == optional_values(values@),
{
    if values.len() == 0 {
        let mut r: Vec<Option<T>> = Vec::new();
        r.push(None);
        proof {
            assert(r@ =~= seq![None]);
        }
        r
    } else {
        let mut r: Vec<Option<T>> = Vec::new();
        let mut i: usize = 0;
        while i < values.len()
            invariant
                i <= values@.len(),
                r@ == values@.take(i as int).map_values(|v: T| Some(v)),
            decreases values@.len() - i,
        {
            r.push(Some(values[i]));
            i = i + 1;
            proof {
                assert(r@ =~= values@.take(i as int).map_values(|v: T| Some(v)));
            }
        }
        proof {
            assert(values@.take(values@.len() as int) =~= values@);
        }
        r
    }
}

/// The parameter grid: every combination of the four lists (an empty
/// confidence or size list stands for its default, an empty stop-loss or
/// take-profit list for "none"), confidence outermost and take profit
/// innermost, stopping after `MAX_PARAM_COMBOS` entries.
pub fn generate_param_grid<T: Copy>(
    confidence_thresholds: &Vec<T>,
    position_size_percents: &Vec<T>,
    stop_loss_percents: &Vec<T>,
    take_profit_percents: &Vec<T>,
    default_confidence: T,
    default_position_size: T,
) -> (grid: Vec<ParamCombo<T>>)
    ensures
        grid@ == param_grid(
            confidence_thresholds@,
            position_size_percents@,
            stop_loss_percents@,
            take_profit_percents@,
            default_confidence,
            default_position_size,
        ),
{
    let conf = values_or_default(confidence_thresholds, default_confidence);
    let pos = values_or_default(position_size_percents, default_position_size);
    let sl = optional_or_none(stop_loss_percents);
    let tp = optional_or_none(take_profit_percents);
    let ghost g = full_grid(conf@, pos@, sl@, tp@);
    let ghost target = param_grid(
        confidence_thresholds@,
        position_size_percents@,
        stop_loss_percents@,
        take_profit_percents@,
        default_confidence,
        default_position_size,
    );
    assert(target == if g.len() <= MAX_PARAM_COMBOS { g } else { g.take(MAX_PARAM_COMBOS as int) });
    let ghost cb = confidence_blocks(conf@, pos@, sl@, tp@);
    let mut grid: Vec<ParamCombo<T>> = Vec::new();
    proof {
        lemma_flatten_whole(cb);
        assert(grid@ + cb.skip(0).flatten() =~= g);
    }
    let mut ci: usize = 0;
    while ci < conf.len()
        invariant
            ci <= conf@.len(),
            g == full_grid(conf@, pos@, sl@, tp@),
            cb == confidence_blocks(conf@, pos@, sl@, tp@),
            grid@ + cb.skip(ci as int).flatten() == g,
            grid@.len() < MAX_PARAM_COMBOS,
                target == if g.len() <= MAX_PARAM_COMBOS { g } else { g.take(MAX_PARAM_COMBOS as int) },
                target == param_grid(
                    confidence_thresholds@,
                    position_size_percents@,
                    stop_loss_percents@,
                    take_profit_percents@,
                    default_confidence,
                    default_position_size,
                ),
        decreases conf@.len() - ci,
    {
        let c = conf[ci];
        let ghost pb = position_blocks(c, pos@, sl@, tp@);
        let ghost rest_c = cb.skip(ci + 1).flatten();
        proof {
            lemma_flatten_skip(cb, ci as int);
            assert(cb[ci as int] == pb.flatten());
            lemma_flatten_whole(pb);
            lemma_concat_assoc(grid@, pb.skip(0).flatten(), rest_c);
        }
        let mut pi: usize = 0;
        while pi < pos.len()
            invariant
                pi <= pos@.len(),
                pb == position_blocks(c, pos@, sl@, tp@),
                (grid@ + pb.skip(pi as int).flatten()) + rest_c == g,
                grid@.len() < MAX_PARAM_COMBOS,
                target == if g.len() <= MAX_PARAM_COMBOS { g } else { g.take(MAX_PARAM_COMBOS as int) },
                target == param_grid(
                    confidence_thresholds@,
                    position_size_percents@,
                    stop_loss_percents@,
                    take_profit_percents@,
                    default_confidence,
                    default_position_size,
                ),
            decreases pos@.len() - pi,
        {
            let p = pos[pi];
            let ghost sb = stop_loss_blocks(c, p, sl@, tp@);
            let ghost rest_p = pb.skip(pi + 1).flatten() + rest_c;
            proof {
                lemma_flatten_skip(pb, pi as int);
                assert(pb[pi as int] == sb.flatten());
                lemma_flatten_whole(sb);
                assert((grid@ + sb.skip(0).flatten()) + rest_p =~= g);
            }
            let mut si: usize = 0;
            while si < sl.len()
                invariant
                    si <= sl@.len(),
                    sb == stop_loss_blocks(c, p, sl@, tp@),
                    (grid@ + sb.skip(si as int).flatten()) + rest_p == g,
                    grid@.len() < MAX_PARAM_COMBOS,
                target == if g.len() <= MAX_PARAM_COMBOS { g } else { g.take(MAX_PARAM_COMBOS as int) },
                target == param_grid(
                    confidence_thresholds@,
                    position_size_percents@,
                    stop_loss_percents@,
                    take_profit_percents@,
                    default_confidence,
                    default_position_size,
                ),
                decreases sl@.len() - si,
            {
                let s = sl[si];
                let ghost row = take_profit_row(c, p, s, tp@);
                let ghost rest_s = sb.skip(si + 1).flatten() + rest_p;
                proof {
                    lemma_flatten_skip(sb, si as int);
                    assert(sb[si as int] == row);
                    assert((grid@ + row) + rest_s =~= g);
                    assert(row.skip(0) =~= row);
                }
                let mut ti: usize = 0;
                while ti < tp.len()
                    invariant
                        ti <= tp@.len(),
                        row == take_profit_row(c, p, s, tp@),
                        (grid@ + row.skip(ti as int)) + rest_s == g,
                        grid@.len() < MAX_PARAM_COMBOS,
                target == if g.len() <= MAX_PARAM_COMBOS { g } else { g.take(MAX_PARAM_COMBOS as int) },
                target == param_grid(
                    confidence_thresholds@,
                    position_size_percents@,
                    stop_loss_percents@,
                    take_profit_percents@,
                    default_confidence,
                    default_position_size,
                ),
                    decreases tp@.len() - ti,
                {
                    let t = tp[ti];
                    let ghost before = grid@;
                    grid.push((c, p, s, t));
                    proof {
                        assert(row[ti as int] == (c, p, s, t));
                        assert(row.skip(ti as int) =~= seq![(c, p, s, t)] + row.skip(ti + 1));
                        assert((grid@ + row.skip(ti + 1)) + rest_s =~= g);
                    }
                    if grid.len() >= MAX_PARAM_COMBOS {
                        proof {
                            assert(g.take(MAX_PARAM_COMBOS as int) =~= grid@);
                            if g.len() <= MAX_PARAM_COMBOS {
                                assert(g =~= grid@);
                            }
                        }
                        return grid;
                    }
                    ti = ti + 1;
                }
                proof {
                    assert(row.skip(tp@.len() as int) =~= Seq::<ParamCombo<T>>::empty());
                    lemma_flatten_skip(sb, si + 1);
                    assert(grid@ + rest_s =~= (grid@ + sb.skip(si + 1).flatten()) + rest_p);
                }
                si = si + 1;
            }
            proof {
                lemma_flatten_skip(sb, sl@.len() as int);
                assert(grid@ + rest_p =~= (grid@ + pb.skip(pi + 1).flatten()) + rest_c);
            }
            pi = pi + 1;
        }
        proof {
            lemma_flatten_skip(pb, pos@.len() as int);
            assert(grid@ + rest_c =~= grid@ + cb.skip(ci + 1).flatten());
        }
        ci = ci + 1;
    }
    proof {
        lemma_flatten_skip(cb, conf@.len() as int);
        assert(grid@ =~= g);
    }
    grid
}

proof fn lemma_flatten_uniform_len<A>(s: Seq<Seq<A>>, l: int)
    requires
        l >= 0,
        forall|i: int| 0 <= i < s.len() ==> (#[trigger] s[i]).len() == l,
    ensures
        s.flatten().len() == s.len() * l,
    decreases s.len(),
{
    if s.len() > 0 {
        let rest = s.drop_first();
        assert forall|i: int| 0 <= i < rest.len() implies (#[trigger] rest[i]).len() == l by {
            assert(rest[i] == s[i + 1]);
        }
        lemma_flatten_uniform_len(rest, l);
        assert(s.first().len() == l);
        assert(s.len() * l == (s.len() - 1) * l + l) by (nonlinear_arith);
    }
}

/// The full grid holds one entry for each combination of the four lists:
/// its length is the product of their lengths.
pub proof fn lemma_full_grid_len<T>(conf: Seq<T>, pos: Seq<T>, sl: Seq<Option<T>>, tp: Seq<Option<T>>)
    ensures
        full_grid(conf, pos, sl, tp).len() == conf.len() * pos.len() * sl.len() * tp.len(),
{
    let l1 = tp.len() as int;
    let l2 = sl.len() * l1;
    let l3 = pos.len() * l2;
    assert forall|c: T, p: T| #[trigger] stop_loss_blocks(c, p, sl, tp).flatten().len() == l2 by {
        let b = stop_loss_blocks(c, p, sl, tp);
        assert forall|i: int| 0 <= i < b.len() implies (#[trigger] b[i]).len() == l1 by {
            assert(b[i] == take_profit_row(c, p, sl[i], tp));
        }
        lemma_flatten_uniform_len(b, l1);
    }
    assert forall|c: T| #[trigger] position_blocks(c, pos, sl, tp).flatten().len() == l3 by {
        let b = position_blocks(c, pos, sl, tp);
        assert(sl.len() * l1 >= 0) by (nonlinear_arith)
            requires
                l1 >= 0,
        ;
        assert forall|i: int| 0 <= i < b.len() implies (#[trigger] b[i]).len() == l2 by {
            assert(b[i] == stop_loss_blocks(c, pos[i], sl, tp).flatten());
        }
        lemma_flatten_uniform_len(b, l2);
    }
    let b = confidence_blocks(conf, pos, sl, tp);
    assert(pos.len() * l2 >= 0) by (nonlinear_arith)
        requires
            l2 == sl.len() * l1,
            l1 >= 0,
    ;
    assert forall|i: int| 0 <= i < b.len() implies (#[trigger] b[i]).len() == l3 by {
        assert(b[i] == position_blocks(conf[i], pos, sl, tp).flatten());
    }
    lemma_flatten_uniform_len(b, l3);
    assert(conf.len() * l3 == conf.len() * pos.len() * sl.len() * tp.len()) by (nonlinear_arith)
        requires
            l3 == pos.len() * l2,
            l2 == sl.len() * l1,
            l1 == tp.len(),
    ;
}

/// The grid has one entry per combination of the parameter lists (an empty
/// list counting as one value), but never more than `MAX_PARAM_COMBOS`.
pub proof fn law_param_grid_size<T>(
    conf: Seq<T>,
    pos: Seq<T>,
    sl: Seq<T>,
    tp: Seq<T>,
    default_conf: T,
    default_pos: T,
)
    ensures
        ({
            let n = or_default(conf, default_conf).len() * or_default(pos, default_pos).len()
                * optional_values(sl).len() * optional_values(tp).len();
            param_grid(conf, pos, sl, tp, default_conf, default_pos).len() == if n <= MAX_PARAM_COMBOS {
                n
            } else {
                MAX_PARAM_COMBOS as nat
            }
        }),
{
    lemma_full_grid_len(
        or_default(conf, default_conf),
        or_default(pos, default_pos),
        optional_values(sl),
        optional_values(tp),
    );
}

} // verus!
