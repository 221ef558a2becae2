//! The round-trip law: reading what the writer rendered gives the event
//! back.  Built up from token-level lemmas (a rendered token is re-extracted
//! verbatim) through record-line lemmas to the whole event listing.

use vstd::prelude::*;

use crate::event::{
    first_key_ge, flow_wf, lemma_first_key_ge, name_ok, spec_flow_insert, wf_event, wf_float,
    CrossSectionModel, EventModel, HeavyIonInfoModel, ParticleModel, PdfInfoModel, VertexModel,
};
use crate::reader::{
    flow_fold, tok_float, tok_float_list, tok_flow_list, tok_i32, tok_i32_list, tok_quoted_list,
    tok_u64, ParseErrorModel,
};
use crate::tokens::{
    dec_digits, is_sep_char, is_ws_char, lemma_dec_digits_val, lemma_i32_text_val,
    lemma_quote_end_run, lemma_sep_end_run, lemma_token_end_run, spec_i32_text, spec_take_quoted,
    spec_take_token, token_clean, valid_i32_token,
};
use crate::writer::{cat_flows, cat_sp, quoted, sp};

verus! {

// ---------------------------------------------------------------------------
// bounds under which a rendered event reads back
// ---------------------------------------------------------------------------

/// A value that fits a signed 32-bit field.
pub open spec fn i32_ok(v: int) -> bool {
    -0x8000_0000 <= v <= 0x7fff_ffff
}

/// Every integer field of the particle fits its wire type, and its flow
/// count fits the signed count field it is written as.
pub open spec fn bounded_particle(p: ParticleModel) -> bool {
    &&& i32_ok(p.id)
    &&& i32_ok(p.status)
    &&& i32_ok(p.end_vtx)
    &&& p.flows.len() <= 0x7fff_ffff
    &&& forall|m: int|
        0 <= m < p.flows.len() ==> i32_ok((#[trigger] p.flows[m]).0) && i32_ok(p.flows[m].1)
}

/// Every integer field and list length of the vertex fits its wire type.
pub open spec fn bounded_vertex(v: VertexModel) -> bool {
    &&& i32_ok(v.barcode)
    &&& i32_ok(v.status)
    &&& v.weights.len() <= usize::MAX
    &&& v.particles_in.len() + v.particles_out.len() <= usize::MAX
    &&& forall|m: int| 0 <= m < v.particles_in.len() ==> bounded_particle(#[trigger] v.particles_in[m])
    &&& forall|m: int|
        0 <= m < v.particles_out.len() ==> bounded_particle(#[trigger] v.particles_out[m])
}

/// Every integer field and list length of the event fits its wire type.
pub open spec fn bounded_event(e: EventModel) -> bool {
    &&& i32_ok(e.number)
    &&& i32_ok(e.mpi)
    &&& i32_ok(e.signal_process_id)
    &&& i32_ok(e.signal_process_vertex)
    &&& e.random_states.len() <= usize::MAX
    &&& e.weights.len() <= usize::MAX
    &&& e.weight_names.len() <= usize::MAX
    &&& e.vertices.len() <= usize::MAX
    &&& forall|m: int| 0 <= m < e.random_states.len() ==> i32_ok(#[trigger] e.random_states[m])
    &&& i32_ok(e.pdf_info.parton_id0)
    &&& i32_ok(e.pdf_info.parton_id1)
    &&& i32_ok(e.pdf_info.pdf_id0)
    &&& i32_ok(e.pdf_info.pdf_id1)
    &&& (match e.heavy_ion_info {
        Some(h) => i32_ok(h.ncoll_hard) && i32_ok(h.npart_proj) && i32_ok(h.npart_targ) && i32_ok(
            h.ncoll,
        ) && i32_ok(h.spectator_neutrons) && i32_ok(h.spectator_protons) && i32_ok(
            h.n_nwounded_collisions,
        ) && i32_ok(h.nwounded_n_collisions) && i32_ok(h.nwounded_nwounded_collisions),
        None => true,
    })
    &&& forall|m: int| 0 <= m < e.vertices.len() ==> bounded_vertex(#[trigger] e.vertices[m])
}

/// The particle lists agree with the classification rule: a particle sits in
/// its vertex's incoming list exactly when its end-vertex barcode matches.
/// Every event the reader produces has this shape.
pub open spec fn linked_vertex(v: VertexModel) -> bool {
    &&& forall|m: int|
        0 <= m < v.particles_in.len() ==> (#[trigger] v.particles_in[m]).end_vtx == v.barcode
    &&& forall|m: int|
        0 <= m < v.particles_out.len() ==> (#[trigger] v.particles_out[m]).end_vtx != v.barcode
}

pub open spec fn linked_event(e: EventModel) -> bool {
    forall|m: int| 0 <= m < e.vertices.len() ==> linked_vertex(#[trigger] e.vertices[m])
}

// ---------------------------------------------------------------------------
// token-level round trips
// ---------------------------------------------------------------------------

/// A clean token rendered after a single space is re-extracted verbatim.
pub proof fn lemma_take_token_at(s: Seq<char>, i: int, t: Seq<char>)
    requires
        0 <= i,
        i + 1 + t.len() <= s.len(),
        s[i] == ' ',
        s.subrange(i + 1, i + 1 + t.len()) == t,
        token_clean(t),
        i + 1 + t.len() == s.len() || is_ws_char(s[i + 1 + t.len()]),
    ensures
        spec_take_token(s, i) == Some((t, i + 1 + t.len())),
{
    let j = i + 1;
    let k = i + 1 + t.len();
    assert(s[j] == t[0]);
    assert(!is_ws_char(s[j]));
    lemma_sep_end_run(s, i, j);
    assert forall|m: int| j <= m < k implies !is_ws_char(#[trigger] s[m]) by {
        assert(s[m] == t[m - j]);
    }
    lemma_token_end_run(s, j, k);
    assert(s.subrange(j, k) == t);
}

/// A floating-point field reads back as its token.
pub proof fn step_float(s: Seq<char>, i: int, t: Seq<char>)
    requires
        0 <= i,
        i + 1 + t.len() <= s.len(),
        s.subrange(i, i + 1 + t.len()) == sp(t),
        wf_float(t),
        i + 1 + t.len() == s.len() || is_ws_char(s[i + 1 + t.len()]),
    ensures
        tok_float(s, i) == Some((t, i + 1 + t.len())),
{
    assert(s[i] == sp(t)[0]);
    assert(s.subrange(i + 1, i + 1 + t.len()) =~= t) by {
        assert forall|m: int| 0 <= m < t.len() implies s.subrange(i + 1, i + 1 + t.len())[m]
            == t[m] by {
            assert(s[i + 1 + m] == sp(t)[1 + m]);
        }
    }
    lemma_take_token_at(s, i, t);
}

/// A signed integer field reads back as its value.
pub proof fn step_i32(s: Seq<char>, i: int, v: int)
    requires
        0 <= i,
        i + 1 + spec_i32_text(v).len() <= s.len(),
        s.subrange(i, i + 1 + spec_i32_text(v).len()) == sp(spec_i32_text(v)),
        i32_ok(v),
        i + 1 + spec_i32_text(v).len() == s.len() || is_ws_char(s[i + 1 + spec_i32_text(v).len()]),
    ensures
        tok_i32(s, i) == Some((v, i + 1 + spec_i32_text(v).len())),
{
    let t = spec_i32_text(v);
    lemma_i32_text_val(v);
    assert(s[i] == sp(t)[0]);
    assert(s.subrange(i + 1, i + 1 + t.len()) =~= t) by {
        assert forall|m: int| 0 <= m < t.len() implies s.subrange(i + 1, i + 1 + t.len())[m]
            == t[m] by {
            assert(s[i + 1 + m] == sp(t)[1 + m]);
        }
    }
    lemma_take_token_at(s, i, t);
}

/// An unsigned count field reads back as its value.
pub proof fn step_u64(s: Seq<char>, i: int, n: nat)
    requires
        0 <= i,
        i + 1 + dec_digits(n).len() <= s.len(),
        s.subrange(i, i + 1 + dec_digits(n).len()) == sp(dec_digits(n)),
        n <= u64::MAX,
        i + 1 + dec_digits(n).len() == s.len() || is_ws_char(s[i + 1 + dec_digits(n).len()]),
    ensures
        tok_u64(s, i) == Some((n, i + 1 + dec_digits(n).len())),
{
    let t = dec_digits(n);
    lemma_dec_digits_val(n);
    assert(s[i] == sp(t)[0]);
    assert(s.subrange(i + 1, i + 1 + t.len()) =~= t) by {
        assert forall|m: int| 0 <= m < t.len() implies s.subrange(i + 1, i + 1 + t.len())[m]
            == t[m] by {
            assert(s[i + 1 + m] == sp(t)[1 + m]);
        }
    }
    lemma_take_token_at(s, i, t);
}

/// A quoted name reads back as its text.
pub proof fn step_quoted(s: Seq<char>, i: int, n: Seq<char>)
    requires
        0 <= i,
        i + 3 + n.len() <= s.len(),
        s.subrange(i, i + 3 + n.len()) == sp(quoted(n)),
        name_ok(n),
    ensures
        spec_take_quoted(s, i) == Some((n, i + 3 + n.len())),
{
    assert(s[i] == sp(quoted(n))[0]);
    assert(s[i + 1] == sp(quoted(n))[1]);
    assert(s[i + 1] == '"');
    assert(s[i + 2 + n.len()] == sp(quoted(n))[2 + n.len() as int]);
    assert(s[i + 2 + n.len()] == '"');
    assert(!is_sep_char(s[i + 1]));
    lemma_sep_end_run(s, i, i + 1);
    assert forall|m: int| i + 2 <= m < i + 2 + n.len() implies #[trigger] s[m] != '"' by {
        assert(s[m] == sp(quoted(n))[m - i]);
        assert(sp(quoted(n))[m - i] == n[m - i - 2]);
    }
    lemma_quote_end_run(s, i + 2, i + 2 + n.len());
    assert(s.subrange(i + 2, i + 2 + n.len()) =~= n) by {
        assert forall|m: int| 0 <= m < n.len() implies s.subrange(i + 2, i + 2 + n.len())[m]
            == n[m] by {
            assert(s[i + 2 + m] == sp(quoted(n))[2 + m]);
        }
    }
}

// ---------------------------------------------------------------------------
// list-level round trips
// ---------------------------------------------------------------------------

/// A non-empty token row begins with its first token.
pub proof fn lemma_cat_sp_first(ts: Seq<Seq<char>>)
    requires
        ts.len() > 0,
    ensures
        cat_sp(ts) == sp(ts.first()) + cat_sp(ts.drop_first()),
    decreases ts.len(),
{
    if ts.len() == 1 {
        assert(ts.drop_last() =~= Seq::<Seq<char>>::empty());
        assert(ts.drop_first() =~= Seq::<Seq<char>>::empty());
        assert(ts.last() == ts.first());
        assert(cat_sp(ts) =~= sp(ts.first()) + cat_sp(ts.drop_first()));
    } else {
        lemma_cat_sp_first(ts.drop_last());
        assert(ts.drop_last().first() == ts.first());
        assert(ts.drop_first().drop_last() =~= ts.drop_last().drop_first());
        assert(ts.drop_first().last() == ts.last());
        assert(cat_sp(ts.drop_first()) == cat_sp(ts.drop_first().drop_last()) + sp(
            ts.drop_first().last(),
        ));
        assert(cat_sp(ts) =~= sp(ts.first()) + cat_sp(ts.drop_first()));
    }
}

/// A non-empty flow row begins with its first pair.
pub proof fn lemma_cat_flows_first(fs: Seq<(int, int)>)
    requires
        fs.len() > 0,
    ensures
        cat_flows(fs) == sp(spec_i32_text(fs.first().0)) + sp(spec_i32_text(fs.first().1))
            + cat_flows(fs.drop_first()),
    decreases fs.len(),
{
    if fs.len() == 1 {
        assert(fs.drop_last() =~= Seq::<(int, int)>::empty());
        assert(fs.drop_first() =~= Seq::<(int, int)>::empty());
        assert(fs.last() == fs.first());
        assert(cat_flows(fs) =~= sp(spec_i32_text(fs.first().0)) + sp(spec_i32_text(fs.first().1))
            + cat_flows(fs.drop_first()));
    } else {
        lemma_cat_flows_first(fs.drop_last());
        assert(fs.drop_last().first() == fs.first());
        assert(fs.drop_first().drop_last() =~= fs.drop_last().drop_first());
        assert(fs.drop_first().last() == fs.last());
        assert(cat_flows(fs.drop_first()) == cat_flows(fs.drop_first().drop_last()) + sp(
            spec_i32_text(fs.drop_first().last().0),
        ) + sp(spec_i32_text(fs.drop_first().last().1)));
        assert(cat_flows(fs) =~= sp(spec_i32_text(fs.first().0)) + sp(spec_i32_text(fs.first().1))
            + cat_flows(fs.drop_first()));
    }
}

/// A row of floating-point fields reads back as its tokens.
pub proof fn list_floats(s: Seq<char>, i: int, ts: Seq<Seq<char>>)
    requires
        0 <= i,
        i + cat_sp(ts).len() <= s.len(),
        s.subrange(i, i + cat_sp(ts).len()) == cat_sp(ts),
        forall|m: int| 0 <= m < ts.len() ==> wf_float(#[trigger] ts[m]),
        i + cat_sp(ts).len() == s.len() || is_ws_char(s[i + cat_sp(ts).len()]),
    ensures
        tok_float_list(s, i, ts.len()) == Some((ts, i + cat_sp(ts).len())),
    decreases ts.len(),
{
    if ts.len() == 0 {
        assert(ts =~= Seq::<Seq<char>>::empty());
    } else {
        lemma_cat_sp_first(ts);
        let t0 = ts.first();
        let rest = ts.drop_first();
        let w: int = 1 + t0.len() as int;
        assert(s.subrange(i, i + w) =~= sp(t0)) by {
            assert forall|m: int| 0 <= m < w implies s.subrange(i, i + w)[m] == sp(t0)[m] by {
                assert(s[i + m] == cat_sp(ts)[m]);
                assert(cat_sp(ts)[m] == sp(t0)[m]);
            }
        }
        if rest.len() > 0 {
            lemma_cat_sp_first(rest);
            assert(s[i + w] == cat_sp(ts)[w]);
            assert(cat_sp(ts)[w] == cat_sp(rest)[0]);
            assert(cat_sp(rest)[0] == ' ');
        }
        step_float(s, i, t0);
        assert(s.subrange(i + w, i + w + cat_sp(rest).len()) =~= cat_sp(rest)) by {
            assert forall|m: int| 0 <= m < cat_sp(rest).len() implies s.subrange(
                i + w,
                i + w + cat_sp(rest).len(),
            )[m] == cat_sp(rest)[m] by {
                assert(s[i + w + m] == cat_sp(ts)[w + m]);
                assert(cat_sp(ts)[w + m] == cat_sp(rest)[m]);
            }
        }
        list_floats(s, i + w, rest);
        assert(seq![t0] + rest =~= ts);
    }
}

/// A row of signed integer fields reads back as its values.
pub proof fn list_i32s(s: Seq<char>, i: int, vs: Seq<int>)
    requires
        0 <= i,
        i + cat_sp(vs.map_values(|v: int| spec_i32_text(v))).len() <= s.len(),
        s.subrange(i, i + cat_sp(vs.map_values(|v: int| spec_i32_text(v))).len()) == cat_sp(
            vs.map_values(|v: int| spec_i32_text(v)),
        ),
        forall|m: int| 0 <= m < vs.len() ==> i32_ok(#[trigger] vs[m]),
        i + cat_sp(vs.map_values(|v: int| spec_i32_text(v))).len() == s.len() || is_ws_char(
            s[i + cat_sp(vs.map_values(|v: int| spec_i32_text(v))).len()],
        ),
    ensures
        tok_i32_list(s, i, vs.len()) == Some(
            (vs, i + cat_sp(vs.map_values(|v: int| spec_i32_text(v))).len()),
        ),
    decreases vs.len(),
{
    let ts = vs.map_values(|v: int| spec_i32_text(v));
    if vs.len() == 0 {
        assert(vs =~= Seq::<int>::empty());
    } else {
        lemma_cat_sp_first(ts);
        let v0 = vs.first();
        let t0 = ts.first();
        assert(t0 == spec_i32_text(v0));
        let rest = vs.drop_first();
        let trest = ts.drop_first();
        assert(trest =~= rest.map_values(|v: int| spec_i32_text(v)));
        let w: int = 1 + t0.len() as int;
        assert(s.subrange(i, i + w) =~= sp(t0)) by {
            assert forall|m: int| 0 <= m < w implies s.subrange(i, i + w)[m] == sp(t0)[m] by {
                assert(s[i + m] == cat_sp(ts)[m]);
                assert(cat_sp(ts)[m] == sp(t0)[m]);
            }
        }
        if trest.len() > 0 {
            lemma_cat_sp_first(trest);
            assert(s[i + w] == cat_sp(ts)[w]);
            assert(cat_sp(ts)[w] == cat_sp(trest)[0]);
            assert(cat_sp(trest)[0] == ' ');
        }
        step_i32(s, i, v0);
        assert(s.subrange(i + w, i + w + cat_sp(trest).len()) =~= cat_sp(trest)) by {
            assert forall|m: int| 0 <= m < cat_sp(trest).len() implies s.subrange(
                i + w,
                i + w + cat_sp(trest).len(),
            )[m] == cat_sp(trest)[m] by {
                assert(s[i + w + m] == cat_sp(ts)[w + m]);
                assert(cat_sp(ts)[w + m] == cat_sp(trest)[m]);
            }
        }
        list_i32s(s, i + w, rest);
        assert(seq![v0] + rest =~= vs);
    }
}

/// A row of quoted names reads back as its texts.
pub proof fn list_names(s: Seq<char>, i: int, ns: Seq<Seq<char>>)
    requires
        0 <= i,
        i + cat_sp(ns.map_values(|n: Seq<char>| quoted(n))).len() <= s.len(),
        s.subrange(i, i + cat_sp(ns.map_values(|n: Seq<char>| quoted(n))).len()) == cat_sp(
            ns.map_values(|n: Seq<char>| quoted(n)),
        ),
        forall|m: int| 0 <= m < ns.len() ==> name_ok(#[trigger] ns[m]),
    ensures
        tok_quoted_list(s, i, ns.len()) == Some(
            (ns, i + cat_sp(ns.map_values(|n: Seq<char>| quoted(n))).len()),
        ),
    decreases ns.len(),
{
    let ts = ns.map_values(|n: Seq<char>| quoted(n));
    if ns.len() == 0 {
        assert(ns =~= Seq::<Seq<char>>::empty());
    } else {
        lemma_cat_sp_first(ts);
        let n0 = ns.first();
        let t0 = ts.first();
        assert(t0 == quoted(n0));
        let rest = ns.drop_first();
        let trest = ts.drop_first();
        assert(trest =~= rest.map_values(|n: Seq<char>| quoted(n)));
        let w: int = 1 + t0.len() as int;
        assert(w == 3 + n0.len());
        assert(s.subrange(i, i + w) =~= sp(t0)) by {
            assert forall|m: int| 0 <= m < w implies s.subrange(i, i + w)[m] == sp(t0)[m] by {
                assert(s[i + m] == cat_sp(ts)[m]);
                assert(cat_sp(ts)[m] == sp(t0)[m]);
            }
        }
        step_quoted(s, i, n0);
        assert(s.subrange(i + w, i + w + cat_sp(trest).len()) =~= cat_sp(trest)) by {
            assert forall|m: int| 0 <= m < cat_sp(trest).len() implies s.subrange(
                i + w,
                i + w + cat_sp(trest).len(),
            )[m] == cat_sp(trest)[m] by {
                assert(s[i + w + m] == cat_sp(ts)[w + m]);
                assert(cat_sp(ts)[w + m] == cat_sp(trest)[m]);
            }
        }
        list_names(s, i + w, rest);
        assert(seq![n0] + rest =~= ns);
    }
}

/// A row of flow pairs reads back as its pairs, in reading order.
pub proof fn list_flows(s: Seq<char>, i: int, fs: Seq<(int, int)>)
    requires
        0 <= i,
        i + cat_flows(fs).len() <= s.len(),
        s.subrange(i, i + cat_flows(fs).len()) == cat_flows(fs),
        forall|m: int| 0 <= m < fs.len() ==> i32_ok((#[trigger] fs[m]).0) && i32_ok(fs[m].1),
        i + cat_flows(fs).len() == s.len() || is_ws_char(s[i + cat_flows(fs).len()]),
    ensures
        tok_flow_list(s, i, fs.len()) == Some((fs, i + cat_flows(fs).len())),
    decreases fs.len(),
{
    if fs.len() == 0 {
        assert(fs =~= Seq::<(int, int)>::empty());
    } else {
        lemma_cat_flows_first(fs);
        let f0 = fs.first();
        let ta = spec_i32_text(f0.0);
        let tb = spec_i32_text(f0.1);
        let rest = fs.drop_first();
        let wa: int = 1 + ta.len() as int;
        let wb: int = 1 + tb.len() as int;
        let w: int = wa + wb;
        assert(s.subrange(i, i + wa) =~= sp(ta)) by {
            assert forall|m: int| 0 <= m < wa implies s.subrange(i, i + wa)[m] == sp(ta)[m] by {
                assert(s[i + m] == cat_flows(fs)[m]);
                assert(cat_flows(fs)[m] == sp(ta)[m]);
            }
        }
        assert(s[i + wa] == cat_flows(fs)[wa]);
        assert(cat_flows(fs)[wa] == sp(tb)[0]);
        step_i32(s, i, f0.0);
        assert(s.subrange(i + wa, i + wa + wb) =~= sp(tb)) by {
            assert forall|m: int| 0 <= m < wb implies s.subrange(i + wa, i + wa + wb)[m] == sp(
                tb,
            )[m] by {
                assert(s[i + wa + m] == cat_flows(fs)[wa + m]);
                assert(cat_flows(fs)[wa + m] == sp(tb)[m]);
            }
        }
        if rest.len() > 0 {
            lemma_cat_flows_first(rest);
            assert(s[i + w] == cat_flows(fs)[w]);
            assert(cat_flows(fs)[w] == cat_flows(rest)[0]);
            assert(cat_flows(rest)[0] == ' ');
        }
        step_i32(s, i + wa, f0.1);
        assert(s.subrange(i + w, i + w + cat_flows(rest).len()) =~= cat_flows(rest)) by {
            assert forall|m: int| 0 <= m < cat_flows(rest).len() implies s.subrange(
                i + w,
                i + w + cat_flows(rest).len(),
            )[m] == cat_flows(rest)[m] by {
                assert(s[i + w + m] == cat_flows(fs)[w + m]);
                assert(cat_flows(fs)[w + m] == cat_flows(rest)[m]);
            }
        }
        list_flows(s, i + w, rest);
        assert(seq![f0] + rest =~= fs);
    }
}

/// Re-inserting pairs whose keys already ascend rebuilds the same map.
pub proof fn lemma_flow_fold_sorted(fs: Seq<(int, int)>)
    requires
        flow_wf(fs),
    ensures
        flow_fold(fs) == fs,
    decreases fs.len(),
{
    if fs.len() > 0 {
        let pre = fs.drop_last();
        assert(flow_wf(pre));
        lemma_flow_fold_sorted(pre);
        let k = fs.last().0;
        lemma_first_key_ge(pre, k, 0);
        let idx = first_key_ge(pre, k, 0);
        if idx < pre.len() {
            assert(pre[idx].0 >= k);
            assert(fs[idx].0 < fs[fs.len() - 1].0);
            assert(false);
        }
        assert(spec_flow_insert(pre, k, fs.last().1) =~= fs);
    }
}

// ---------------------------------------------------------------------------
// record-line round trips
// ---------------------------------------------------------------------------

/// The zero field is a clean floating-point token.
pub proof fn lemma_zero_tok()
    ensures
        wf_float(crate::event::zero_text()),
        token_clean(crate::event::zero_text()),
        dec_digits(0) == crate::event::zero_text(),
{
    crate::event::lemma_zero_text_wf();
    assert(dec_digits(0) =~= crate::event::zero_text());
}

/// A `C` line reads back as the cross section it was rendered from.
pub proof fn line_xs_round(x: CrossSectionModel, e: EventModel)
    requires
        crate::event::wf_cross_section(x),
    ensures
        crate::reader::spec_parse_xs_info_line(crate::writer::spec_xs_line(x), e) == Ok::<
            EventModel,
            ParseErrorModel,
        >(EventModel { xs: x, ..e }),
{
    let s = crate::writer::spec_xs_line(x);
    let t1 = x.cross_section;
    let t2 = x.cross_section_error;
    let c1: int = 2 + t1.len() as int;
    let c2: int = c1 + 1 + t2.len() as int;
    assert(s.len() == c2);
    assert(s.subrange(1, c1) =~= sp(t1));
    assert(s[c1] == ' ');
    step_float(s, 1, t1);
    assert(s.subrange(c1, c2) =~= sp(t2));
    step_float(s, c1, t2);
    assert(CrossSectionModel { cross_section: t1, cross_section_error: t2 } =~= x);
}

/// A `U` line reads back as the units it was rendered from.
pub proof fn line_units_round(e: EventModel, e2: EventModel)
    ensures
        crate::reader::spec_parse_units_line(crate::writer::spec_units_line(e), e2) == Ok::<
            EventModel,
            ParseErrorModel,
        >(EventModel { energy_unit: e.energy_unit, length_unit: e.length_unit, ..e2 }),
{
    let s = crate::writer::spec_units_line(e);
    let t1 = e.energy_unit.spec_token();
    let t2 = e.length_unit.spec_token();
    let c1: int = 2 + t1.len() as int;
    let c2: int = c1 + 1 + t2.len() as int;
    assert(s.len() == c2);
    assert(token_clean(t1));
    assert(token_clean(t2));
    assert(s.subrange(2, c1) =~= t1);
    assert(s[1] == ' ');
    assert(s[c1] == ' ');
    lemma_take_token_at(s, 1, t1);
    assert(s.subrange(c1 + 1, c2) =~= t2);
    lemma_take_token_at(s, c1, t2);
    assert(crate::event::spec_energy_unit_of(t1) == Some(e.energy_unit));
    assert(crate::event::spec_length_unit_of(t2) == Some(e.length_unit));
}

/// An `N` line reads back as the name list it was rendered from.
pub proof fn line_names_round(names: Seq<Seq<char>>, e: EventModel)
    requires
        forall|m: int| 0 <= m < names.len() ==> name_ok(#[trigger] names[m]),
        names.len() <= usize::MAX,
    ensures
        crate::reader::spec_parse_weight_names_line(crate::writer::spec_names_line(names), e)
            == Ok::<EventModel, ParseErrorModel>(EventModel { weight_names: names, ..e }),
{
    let s = crate::writer::spec_names_line(names);
    let cnt = dec_digits(names.len());
    let c1: int = 2 + cnt.len() as int;
    let body = cat_sp(names.map_values(|n: Seq<char>| quoted(n)));
    let c2: int = c1 + body.len() as int;
    assert(s.len() == c2);
    assert(s.subrange(1, c1) =~= sp(cnt));
    if names.len() > 0 {
        lemma_cat_sp_first(names.map_values(|n: Seq<char>| quoted(n)));
        assert(s[c1] == body[0]);
        assert(body[0] == ' ');
    }
    step_u64(s, 1, names.len());
    assert(s.subrange(c1, c2) =~= body);
    list_names(s, c1, names);
}

/// An `F` line reads back as the PDF information it was rendered from.
#[verifier::rlimit(100)]
#[verifier::spinoff_prover]
pub proof fn line_pdf_round(p: PdfInfoModel, e: EventModel)
    requires
        crate::event::wf_pdf_info(p),
        i32_ok(p.parton_id0),
        i32_ok(p.parton_id1),
        i32_ok(p.pdf_id0),
        i32_ok(p.pdf_id1),
    ensures
        crate::reader::spec_parse_pdf_info_line(crate::writer::spec_pdf_line(p), e) == Ok::<
            EventModel,
            ParseErrorModel,
        >(EventModel { pdf_info: p, ..e }),
{
    let s = crate::writer::spec_pdf_line(p);
    let t1 = spec_i32_text(p.parton_id0);
    let t2 = spec_i32_text(p.parton_id1);
    let t8 = spec_i32_text(p.pdf_id0);
    let t9 = spec_i32_text(p.pdf_id1);
    let c1: int = 2 + t1.len() as int;
    let c2: int = c1 + 1 + t2.len() as int;
    let c3: int = c2 + 1 + p.x0.len() as int;
    let c4: int = c3 + 1 + p.x1.len() as int;
    let c5: int = c4 + 1 + p.scale.len() as int;
    let c6: int = c5 + 1 + p.xf0.len() as int;
    let c7: int = c6 + 1 + p.xf1.len() as int;
    let c8: int = c7 + 1 + t8.len() as int;
    let c9: int = c8 + 1 + t9.len() as int;
    assert(s.len() == c9);
    assert(s.subrange(1, c1) =~= sp(t1));
    assert(s[c1] == ' ');
    step_i32(s, 1, p.parton_id0);
    assert(s.subrange(c1, c2) =~= sp(t2));
    assert(s[c2] == ' ');
    step_i32(s, c1, p.parton_id1);
    assert(s.subrange(c2, c3) =~= sp(p.x0));
    assert(s[c3] == ' ');
    step_float(s, c2, p.x0);
    assert(s.subrange(c3, c4) =~= sp(p.x1));
    assert(s[c4] == ' ');
    step_float(s, c3, p.x1);
    assert(s.subrange(c4, c5) =~= sp(p.scale));
    assert(s[c5] == ' ');
    step_float(s, c4, p.scale);
    assert(s.subrange(c5, c6) =~= sp(p.xf0));
    assert(s[c6] == ' ');
    step_float(s, c5, p.xf0);
    assert(s.subrange(c6, c7) =~= sp(p.xf1));
    assert(s[c7] == ' ');
    step_float(s, c6, p.xf1);
    assert(s.subrange(c7, c8) =~= sp(t8));
    assert(s[c8] == ' ');
    step_i32(s, c7, p.pdf_id0);
    assert(s.subrange(c8, c9) =~= sp(t9));
    step_i32(s, c8, p.pdf_id1);
    assert(PdfInfoModel {
        parton_id0: p.parton_id0,
        parton_id1: p.parton_id1,
        x0: p.x0,
        x1: p.x1,
        scale: p.scale,
        xf0: p.xf0,
        xf1: p.xf1,
        pdf_id0: p.pdf_id0,
        pdf_id1: p.pdf_id1,
    } =~= p);
}

/// An `H` line reads back as the heavy-ion information it was rendered from.
#[verifier::rlimit(100)]
#[verifier::spinoff_prover]
pub proof fn line_heavy_round(h: HeavyIonInfoModel, e: EventModel)
    requires
        crate::event::wf_heavy_ion_info(h),
        i32_ok(h.ncoll_hard),
        i32_ok(h.npart_proj),
        i32_ok(h.npart_targ),
        i32_ok(h.ncoll),
        i32_ok(h.spectator_neutrons),
        i32_ok(h.spectator_protons),
        i32_ok(h.n_nwounded_collisions),
        i32_ok(h.nwounded_n_collisions),
        i32_ok(h.nwounded_nwounded_collisions),
    ensures
        crate::reader::spec_parse_heavy_ion_line(crate::writer::spec_heavy_line(h), e) == Ok::<
            EventModel,
            ParseErrorModel,
        >(EventModel { heavy_ion_info: Some(h), ..e }),
{
    let s = crate::writer::spec_heavy_line(h);
    let ints = seq![
        h.ncoll_hard,
        h.npart_proj,
        h.npart_targ,
        h.ncoll,
        h.spectator_neutrons,
        h.spectator_protons,
        h.n_nwounded_collisions,
        h.nwounded_n_collisions,
        h.nwounded_nwounded_collisions,
    ];
    let tints = ints.map_values(|v: int| spec_i32_text(v));
    let intspart = cat_sp(tints);
    let c1: int = 1 + intspart.len() as int;
    let c2: int = c1 + 1 + h.impact_parameter.len() as int;
    let c3: int = c2 + 1 + h.event_plane_angle.len() as int;
    let c4: int = c3 + 1 + h.eccentricity.len() as int;
    let c5: int = c4 + 1 + h.sigma_inel_nn.len() as int;
    assert(intspart =~= sp(tints[0]) + sp(tints[1]) + sp(tints[2]) + sp(tints[3]) + sp(tints[4])
        + sp(tints[5]) + sp(tints[6]) + sp(tints[7]) + sp(tints[8])) by {
        assert(tints.len() == 9);
        assert(tints.take(0) =~= Seq::<Seq<char>>::empty());
        assert(cat_sp(tints.take(0)) == Seq::<char>::empty());
        assert(tints.take(1).drop_last() =~= tints.take(0));
        assert(tints.take(1).last() == tints[0]);
        assert(cat_sp(tints.take(1)) == cat_sp(tints.take(0)) + sp(tints[0]));
        assert(tints.take(2).drop_last() =~= tints.take(1));
        assert(tints.take(2).last() == tints[1]);
        assert(cat_sp(tints.take(2)) == cat_sp(tints.take(1)) + sp(tints[1]));
        assert(tints.take(3).drop_last() =~= tints.take(2));
        assert(tints.take(3).last() == tints[2]);
        assert(cat_sp(tints.take(3)) == cat_sp(tints.take(2)) + sp(tints[2]));
        assert(tints.take(4).drop_last() =~= tints.take(3));
        assert(tints.take(4).last() == tints[3]);
        assert(cat_sp(tints.take(4)) == cat_sp(tints.take(3)) + sp(tints[3]));
        assert(tints.take(5).drop_last() =~= tints.take(4));
        assert(tints.take(5).last() == tints[4]);
        assert(cat_sp(tints.take(5)) == cat_sp(tints.take(4)) + sp(tints[4]));
        assert(tints.take(6).drop_last() =~= tints.take(5));
        assert(tints.take(6).last() == tints[5]);
        assert(cat_sp(tints.take(6)) == cat_sp(tints.take(5)) + sp(tints[5]));
        assert(tints.take(7).drop_last() =~= tints.take(6));
        assert(tints.take(7).last() == tints[6]);
        assert(cat_sp(tints.take(7)) == cat_sp(tints.take(6)) + sp(tints[6]));
        assert(tints.take(8).drop_last() =~= tints.take(7));
        assert(tints.take(8).last() == tints[7]);
        assert(cat_sp(tints.take(8)) == cat_sp(tints.take(7)) + sp(tints[7]));
        assert(tints.take(9).drop_last() =~= tints.take(8));
        assert(tints.take(9).last() == tints[8]);
        assert(cat_sp(tints.take(9)) == cat_sp(tints.take(8)) + sp(tints[8]));
        assert(tints.take(9) =~= tints);
        assert(Seq::<char>::empty() + sp(tints[0]) =~= sp(tints[0]));
    };
    assert(s =~= (seq!['H'] + intspart) + sp(h.impact_parameter) + sp(h.event_plane_angle) + sp(
        h.eccentricity,
    ) + sp(h.sigma_inel_nn));
    assert(s.subrange(1, c1) =~= intspart);
    assert(s[c1] == ' ');
    list_i32s(s, 1, ints);
    assert(s.subrange(c1, c2) =~= sp(h.impact_parameter));
    assert(s[c2] == ' ');
    step_float(s, c1, h.impact_parameter);
    assert(s.subrange(c2, c3) =~= sp(h.event_plane_angle));
    assert(s[c3] == ' ');
    step_float(s, c2, h.event_plane_angle);
    assert(s.subrange(c3, c4) =~= sp(h.eccentricity));
    assert(s[c4] == ' ');
    step_float(s, c3, h.eccentricity);
    assert(s.subrange(c4, c5) =~= sp(h.sigma_inel_nn));
    step_float(s, c4, h.sigma_inel_nn);
    let floats = seq![h.impact_parameter, h.event_plane_angle, h.eccentricity, h.sigma_inel_nn];
    assert(tok_float_list(s, c1, 4) == Some((floats, c5))) by {
        assert(tok_float_list(s, c5, 0) == Some((Seq::<Seq<char>>::empty(), c5)));
        assert(tok_float_list(s, c4, 1) == Some((seq![h.sigma_inel_nn], c5))) by {
            assert(seq![h.sigma_inel_nn] + Seq::<Seq<char>>::empty() =~= seq![h.sigma_inel_nn]);
        };
        assert(tok_float_list(s, c3, 2) == Some((seq![h.eccentricity, h.sigma_inel_nn], c5))) by {
            assert(seq![h.eccentricity] + seq![h.sigma_inel_nn] =~= seq![
                h.eccentricity,
                h.sigma_inel_nn,
            ]);
        };
        assert(tok_float_list(s, c2, 3) == Some(
            (seq![h.event_plane_angle, h.eccentricity, h.sigma_inel_nn], c5),
        )) by {
            assert(seq![h.event_plane_angle] + seq![h.eccentricity, h.sigma_inel_nn] =~= seq![
                h.event_plane_angle,
                h.eccentricity,
                h.sigma_inel_nn,
            ]);
        };
        assert(seq![h.impact_parameter] + seq![
            h.event_plane_angle,
            h.eccentricity,
            h.sigma_inel_nn,
        ] =~= floats);
    };
    assert(HeavyIonInfoModel {
        ncoll_hard: ints[0],
        npart_proj: ints[1],
        npart_targ: ints[2],
        ncoll: ints[3],
        spectator_neutrons: ints[4],
        spectator_protons: ints[5],
        n_nwounded_collisions: ints[6],
        nwounded_n_collisions: ints[7],
        nwounded_nwounded_collisions: ints[8],
        impact_parameter: floats[0],
        event_plane_angle: floats[1],
        eccentricity: floats[2],
        sigma_inel_nn: floats[3],
    } =~= h);
}

/// A `V` line reads back as the vertex it was rendered from, appended with
/// empty particle lists.
#[verifier::rlimit(100)]
#[verifier::spinoff_prover]
pub proof fn line_vertex_round(v: VertexModel, e: EventModel)
    requires
        crate::event::wf_vertex(v),
        bounded_vertex(v),
    ensures
        crate::reader::spec_parse_vertex_line(crate::writer::spec_vertex_line(v), e) == Ok::<
            EventModel,
            ParseErrorModel,
        >(EventModel {
            vertices: e.vertices.push(
                VertexModel {
                    particles_in: Seq::empty(),
                    particles_out: Seq::empty(),
                    ..v
                },
            ),
            ..e
        }),
{
    lemma_zero_tok();
    let s = crate::writer::spec_vertex_line(v);
    let t1 = spec_i32_text(v.barcode);
    let t2 = spec_i32_text(v.status);
    let zero = crate::event::zero_text();
    let nout = dec_digits((v.particles_in.len() + v.particles_out.len()) as nat);
    let nw = dec_digits(v.weights.len());
    let wpart = cat_sp(v.weights);
    let c1: int = 2 + t1.len() as int;
    let c2: int = c1 + 1 + t2.len() as int;
    let c3: int = c2 + 1 + v.x.len() as int;
    let c4: int = c3 + 1 + v.y.len() as int;
    let c5: int = c4 + 1 + v.z.len() as int;
    let c6: int = c5 + 1 + v.t.len() as int;
    let c7: int = c6 + 2;
    let c8: int = c7 + 1 + nout.len() as int;
    let c9: int = c8 + 1 + nw.len() as int;
    let c10: int = c9 + wpart.len() as int;
    assert(s.len() == c10);
    assert(s.subrange(1, c1) =~= sp(t1));
    assert(s[c1] == ' ');
    step_i32(s, 1, v.barcode);
    assert(s.subrange(c1, c2) =~= sp(t2));
    assert(s[c2] == ' ');
    step_i32(s, c1, v.status);
    assert(s.subrange(c2, c3) =~= sp(v.x));
    assert(s[c3] == ' ');
    step_float(s, c2, v.x);
    assert(s.subrange(c3, c4) =~= sp(v.y));
    assert(s[c4] == ' ');
    step_float(s, c3, v.y);
    assert(s.subrange(c4, c5) =~= sp(v.z));
    assert(s[c5] == ' ');
    step_float(s, c4, v.z);
    assert(s.subrange(c5, c6) =~= sp(v.t));
    assert(s[c6] == ' ');
    step_float(s, c5, v.t);
    assert(zero == spec_i32_text(0));
    assert(s.subrange(c6, c7) =~= sp(spec_i32_text(0)));
    assert(s[c7] == ' ');
    step_i32(s, c6, 0);
    assert(s.subrange(c7, c8) =~= sp(nout));
    assert(s[c8] == ' ');
    step_u64(s, c7, (v.particles_in.len() + v.particles_out.len()) as nat);
    assert(s.subrange(c8, c9) =~= sp(nw));
    if v.weights.len() > 0 {
        lemma_cat_sp_first(v.weights);
        assert(s[c9] == wpart[0]);
        assert(wpart[0] == ' ');
    }
    step_u64(s, c8, v.weights.len());
    assert(s.subrange(c9, c10) =~= wpart);
    list_floats(s, c9, v.weights);
    assert(VertexModel {
        barcode: v.barcode,
        status: v.status,
        x: v.x,
        y: v.y,
        z: v.z,
        t: v.t,
        weights: v.weights,
        particles_in: Seq::empty(),
        particles_out: Seq::empty(),
    } =~= (VertexModel { particles_in: Seq::empty(), particles_out: Seq::empty(), ..v }));
}

/// The first six fields of a `P` line read back as their values.
#[verifier::rlimit(100)]
#[verifier::spinoff_prover]
pub proof fn line_particle_prefix_a(p: ParticleModel)
    requires
        crate::event::wf_particle(p),
        bounded_particle(p),
    ensures
        ({
            let s = crate::writer::spec_particle_line(p);
            let t2 = spec_i32_text(p.id);
            let c1: int = 3;
            let c2: int = c1 + 1 + t2.len() as int;
            let c3: int = c2 + 1 + p.p.x.len() as int;
            let c4: int = c3 + 1 + p.p.y.len() as int;
            let c5: int = c4 + 1 + p.p.z.len() as int;
            let c6: int = c5 + 1 + p.p.t.len() as int;
            &&& tok_i32(s, 1) == Some((0int, c1))
            &&& tok_i32(s, c1) == Some((p.id, c2))
            &&& tok_float(s, c2) == Some((p.p.x, c3))
            &&& tok_float(s, c3) == Some((p.p.y, c4))
            &&& tok_float(s, c4) == Some((p.p.z, c5))
            &&& tok_float(s, c5) == Some((p.p.t, c6))
        }),
{
    lemma_zero_tok();
    let s = crate::writer::spec_particle_line(p);
    let zero = crate::event::zero_text();
    let t2 = spec_i32_text(p.id);
    let c1: int = 3;
    let c2: int = c1 + 1 + t2.len() as int;
    let c3: int = c2 + 1 + p.p.x.len() as int;
    let c4: int = c3 + 1 + p.p.y.len() as int;
    let c5: int = c4 + 1 + p.p.z.len() as int;
    let c6: int = c5 + 1 + p.p.t.len() as int;
    assert(c6 < s.len());
    assert(zero == spec_i32_text(0));
    assert(s.subrange(1, c1) =~= sp(spec_i32_text(0)));
    assert(s[c1] == ' ');
    step_i32(s, 1, 0);
    assert(s.subrange(c1, c2) =~= sp(t2));
    assert(s[c2] == ' ');
    step_i32(s, c1, p.id);
    assert(s.subrange(c2, c3) =~= sp(p.p.x));
    assert(s[c3] == ' ');
    step_float(s, c2, p.p.x);
    assert(s.subrange(c3, c4) =~= sp(p.p.y));
    assert(s[c4] == ' ');
    step_float(s, c3, p.p.y);
    assert(s.subrange(c4, c5) =~= sp(p.p.z));
    assert(s[c5] == ' ');
    step_float(s, c4, p.p.z);
    assert(s.subrange(c5, c6) =~= sp(p.p.t));
    assert(s[c6] == ' ');
    step_float(s, c5, p.p.t);
}

/// The leading fixed fields of a `P` line read back as their values.
#[verifier::rlimit(100)]
#[verifier::spinoff_prover]
pub proof fn line_particle_prefix(p: ParticleModel)
    requires
        crate::event::wf_particle(p),
        bounded_particle(p),
    ensures
        ({
            let s = crate::writer::spec_particle_line(p);
            let t2 = spec_i32_text(p.id);
            let t8 = spec_i32_text(p.status);
            let c1: int = 3;
            let c2: int = c1 + 1 + t2.len() as int;
            let c3: int = c2 + 1 + p.p.x.len() as int;
            let c4: int = c3 + 1 + p.p.y.len() as int;
            let c5: int = c4 + 1 + p.p.z.len() as int;
            let c6: int = c5 + 1 + p.p.t.len() as int;
            let c7: int = c6 + 1 + p.m.len() as int;
            let c8: int = c7 + 1 + t8.len() as int;
            let c9: int = c8 + 1 + p.theta.len() as int;
            let c10: int = c9 + 1 + p.phi.len() as int;
            &&& tok_i32(s, 1) == Some((0int, c1))
            &&& tok_i32(s, c1) == Some((p.id, c2))
            &&& tok_float(s, c2) == Some((p.p.x, c3))
            &&& tok_float(s, c3) == Some((p.p.y, c4))
            &&& tok_float(s, c4) == Some((p.p.z, c5))
            &&& tok_float(s, c5) == Some((p.p.t, c6))
            &&& tok_float(s, c6) == Some((p.m, c7))
            &&& tok_i32(s, c7) == Some((p.status, c8))
            &&& tok_float(s, c8) == Some((p.theta, c9))
            &&& tok_float(s, c9) == Some((p.phi, c10))
        }),
{
    line_particle_prefix_a(p);
    let s = crate::writer::spec_particle_line(p);
    let t2 = spec_i32_text(p.id);
    let t8 = spec_i32_text(p.status);
    let c1: int = 3;
    let c2: int = c1 + 1 + t2.len() as int;
    let c3: int = c2 + 1 + p.p.x.len() as int;
    let c4: int = c3 + 1 + p.p.y.len() as int;
    let c5: int = c4 + 1 + p.p.z.len() as int;
    let c6: int = c5 + 1 + p.p.t.len() as int;
    let c7: int = c6 + 1 + p.m.len() as int;
    let c8: int = c7 + 1 + t8.len() as int;
    let c9: int = c8 + 1 + p.theta.len() as int;
    let c10: int = c9 + 1 + p.phi.len() as int;
    assert(c10 < s.len());
    assert(s.subrange(c6, c7) =~= sp(p.m));
    assert(s[c7] == ' ');
    step_float(s, c6, p.m);
    assert(s.subrange(c7, c8) =~= sp(t8));
    assert(s[c8] == ' ');
    step_i32(s, c7, p.status);
    assert(s.subrange(c8, c9) =~= sp(p.theta));
    assert(s[c9] == ' ');
    step_float(s, c8, p.theta);
    assert(s.subrange(c9, c10) =~= sp(p.phi));
    assert(s[c10] == ' ');
    step_float(s, c9, p.phi);
}

/// A `P` line reads back as the particle it was rendered from, handed to the
/// linking rule.
#[verifier::rlimit(100)]
#[verifier::spinoff_prover]
pub proof fn line_particle_round(p: ParticleModel, e: EventModel)
    requires
        crate::event::wf_particle(p),
        bounded_particle(p),
    ensures
        crate::reader::spec_parse_particle_line(crate::writer::spec_particle_line(p), e)
            == crate::reader::spec_link_particle(e, p),
{
    lemma_zero_tok();
    line_particle_prefix(p);
    let s = crate::writer::spec_particle_line(p);
    let zero = crate::event::zero_text();
    let t2 = spec_i32_text(p.id);
    let t8 = spec_i32_text(p.status);
    let t11 = spec_i32_text(p.end_vtx);
    let nf = dec_digits(p.flows.len());
    let fpart = cat_flows(p.flows);
    let c1: int = 3;
    let c2: int = c1 + 1 + t2.len() as int;
    let c3: int = c2 + 1 + p.p.x.len() as int;
    let c4: int = c3 + 1 + p.p.y.len() as int;
    let c5: int = c4 + 1 + p.p.z.len() as int;
    let c6: int = c5 + 1 + p.p.t.len() as int;
    let c7: int = c6 + 1 + p.m.len() as int;
    let c8: int = c7 + 1 + t8.len() as int;
    let c9: int = c8 + 1 + p.theta.len() as int;
    let c10: int = c9 + 1 + p.phi.len() as int;
    let c11: int = c10 + 1 + t11.len() as int;
    let c12: int = c11 + 1 + nf.len() as int;
    let c13: int = c12 + fpart.len() as int;
    assert(s.len() == c13);
    assert(s.subrange(c10, c11) =~= sp(t11));
    assert(s[c11] == ' ');
    step_i32(s, c10, p.end_vtx);
    // the flow count is written unsigned but read back as a signed numeral
    lemma_dec_digits_val(p.flows.len());
    assert(crate::tokens::sign_skip(nf) == 0);
    assert(crate::tokens::int_body(nf) =~= nf);
    assert(valid_i32_token(nf));
    assert(crate::tokens::i32_token_val(nf) == p.flows.len());
    assert(s.subrange(c11, c12) =~= sp(nf));
    assert(s[c11] == ' ');
    assert(s.subrange(c12 - nf.len(), c12) =~= nf) by {
        assert forall|m: int| 0 <= m < nf.len() implies s.subrange(c12 - nf.len(), c12)[m]
            == nf[m] by {
            assert(s[c11 + 1 + m] == sp(nf)[1 + m]);
        }
    }
    if p.flows.len() > 0 {
        lemma_cat_flows_first(p.flows);
        assert(s[c12] == fpart[0]);
        assert(fpart[0] == ' ');
        assert(is_ws_char(s[c12]));
    }
    lemma_take_token_at(s, c11, nf);
    assert(tok_i32(s, c11) == Some((p.flows.len() as int, c12)));
    assert(crate::reader::flow_count(p.flows.len() as int) == p.flows.len());
    assert(s.subrange(c12, c13) =~= fpart);
    list_flows(s, c12, p.flows);
    lemma_flow_fold_sorted(p.flows);
    assert(ParticleModel {
        id: p.id,
        p: crate::event::FourVectorModel { t: p.p.t, x: p.p.x, y: p.p.y, z: p.p.z },
        m: p.m,
        status: p.status,
        theta: p.theta,
        phi: p.phi,
        flows: flow_fold(p.flows),
        end_vtx: p.end_vtx,
    } =~= p) by {
        assert(crate::event::FourVectorModel { t: p.p.t, x: p.p.x, y: p.p.y, z: p.p.z } =~= p.p);
    };
}

/// The first five fields of an `E` line read back as their values.
#[verifier::rlimit(100)]
#[verifier::spinoff_prover]
pub proof fn line_event_prefix_a(e: EventModel)
    requires
        wf_event(e),
        bounded_event(e),
    ensures
        ({
            let s = crate::writer::spec_event_line(e);
            let t1 = spec_i32_text(e.number);
            let t2 = spec_i32_text(e.mpi);
            let c1: int = 2 + t1.len() as int;
            let c2: int = c1 + 1 + t2.len() as int;
            let c3: int = c2 + 1 + e.scale.len() as int;
            let c4: int = c3 + 1 + e.alpha_qcd.len() as int;
            let c5: int = c4 + 1 + e.alpha_qed.len() as int;
            &&& tok_i32(s, 1) == Some((e.number, c1))
            &&& tok_i32(s, c1) == Some((e.mpi, c2))
            &&& tok_float(s, c2) == Some((e.scale, c3))
            &&& tok_float(s, c3) == Some((e.alpha_qcd, c4))
            &&& tok_float(s, c4) == Some((e.alpha_qed, c5))
        }),
{
    let s = crate::writer::spec_event_line(e);
    let t1 = spec_i32_text(e.number);
    let t2 = spec_i32_text(e.mpi);
    let c1: int = 2 + t1.len() as int;
    let c2: int = c1 + 1 + t2.len() as int;
    let c3: int = c2 + 1 + e.scale.len() as int;
    let c4: int = c3 + 1 + e.alpha_qcd.len() as int;
    let c5: int = c4 + 1 + e.alpha_qed.len() as int;
    assert(c5 < s.len());
    assert(s.subrange(1, c1) =~= sp(t1));
    assert(s[c1] == ' ');
    step_i32(s, 1, e.number);
    assert(s.subrange(c1, c2) =~= sp(t2));
    assert(s[c2] == ' ');
    step_i32(s, c1, e.mpi);
    assert(s.subrange(c2, c3) =~= sp(e.scale));
    assert(s[c3] == ' ');
    step_float(s, c2, e.scale);
    assert(s.subrange(c3, c4) =~= sp(e.alpha_qcd));
    assert(s[c4] == ' ');
    step_float(s, c3, e.alpha_qcd);
    assert(s.subrange(c4, c5) =~= sp(e.alpha_qed));
    assert(s[c5] == ' ');
    step_float(s, c4, e.alpha_qed);
}

/// The fixed fields of an `E` line up to the second beam token read back as
/// their values.
#[verifier::rlimit(100)]
#[verifier::spinoff_prover]
pub proof fn line_event_prefix(e: EventModel)
    requires
        wf_event(e),
        bounded_event(e),
    ensures
        ({
            let s = crate::writer::spec_event_line(e);
            let t1 = spec_i32_text(e.number);
            let t2 = spec_i32_text(e.mpi);
            let t6 = spec_i32_text(e.signal_process_id);
            let t7 = spec_i32_text(e.signal_process_vertex);
            let nv = dec_digits(e.vertices.len());
            let zero = crate::event::zero_text();
            let c1: int = 2 + t1.len() as int;
            let c2: int = c1 + 1 + t2.len() as int;
            let c3: int = c2 + 1 + e.scale.len() as int;
            let c4: int = c3 + 1 + e.alpha_qcd.len() as int;
            let c5: int = c4 + 1 + e.alpha_qed.len() as int;
            let c6: int = c5 + 1 + t6.len() as int;
            let c7: int = c6 + 1 + t7.len() as int;
            let c8: int = c7 + 1 + nv.len() as int;
            let c9: int = c8 + 2;
            let c10: int = c9 + 2;
            &&& tok_i32(s, 1) == Some((e.number, c1))
            &&& tok_i32(s, c1) == Some((e.mpi, c2))
            &&& tok_float(s, c2) == Some((e.scale, c3))
            &&& tok_float(s, c3) == Some((e.alpha_qcd, c4))
            &&& tok_float(s, c4) == Some((e.alpha_qed, c5))
            &&& tok_i32(s, c5) == Some((e.signal_process_id, c6))
            &&& tok_i32(s, c6) == Some((e.signal_process_vertex, c7))
            &&& tok_u64(s, c7) == Some((e.vertices.len(), c8))
            &&& spec_take_token(s, c8) == Some((zero, c9))
            &&& spec_take_token(s, c9) == Some((zero, c10))
        }),
{
    lemma_zero_tok();
    line_event_prefix_a(e);
    let s = crate::writer::spec_event_line(e);
    let zero = crate::event::zero_text();
    let t1 = spec_i32_text(e.number);
    let t2 = spec_i32_text(e.mpi);
    let t6 = spec_i32_text(e.signal_process_id);
    let t7 = spec_i32_text(e.signal_process_vertex);
    let nv = dec_digits(e.vertices.len());
    let c1: int = 2 + t1.len() as int;
    let c2: int = c1 + 1 + t2.len() as int;
    let c3: int = c2 + 1 + e.scale.len() as int;
    let c4: int = c3 + 1 + e.alpha_qcd.len() as int;
    let c5: int = c4 + 1 + e.alpha_qed.len() as int;
    let c6: int = c5 + 1 + t6.len() as int;
    let c7: int = c6 + 1 + t7.len() as int;
    let c8: int = c7 + 1 + nv.len() as int;
    let c9: int = c8 + 2;
    let c10: int = c9 + 2;
    assert(c10 <= s.len());
    assert(s.subrange(c5, c6) =~= sp(t6));
    assert(s[c6] == ' ');
    step_i32(s, c5, e.signal_process_id);
    assert(s.subrange(c6, c7) =~= sp(t7));
    assert(s[c7] == ' ');
    step_i32(s, c6, e.signal_process_vertex);
    assert(s.subrange(c7, c8) =~= sp(nv));
    assert(s[c8] == ' ');
    step_u64(s, c7, e.vertices.len());
    assert(s.subrange(c8, c9) =~= sp(zero));
    assert(s[c9] == ' ');
    assert(s.subrange(c9 - 1, c9) =~= zero) by {
        assert(s[c8 + 1] == sp(zero)[1]);
    }
    lemma_take_token_at(s, c8, zero);
    assert(s.subrange(c9, c10) =~= sp(zero));
    assert(s[c10] == ' ');
    assert(s.subrange(c10 - 1, c10) =~= zero) by {
        assert(s[c9 + 1] == sp(zero)[1]);
    }
    lemma_take_token_at(s, c9, zero);
}

/// An `E` line reads back as the scalar fields, random states and weights of
/// the event it was rendered from, over an otherwise default event.
#[verifier::rlimit(100)]
#[verifier::spinoff_prover]
pub proof fn line_event_round(e: EventModel)
    requires
        wf_event(e),
        bounded_event(e),
    ensures
        crate::reader::spec_parse_event_line(crate::writer::spec_event_line(e)) == Ok::<
            EventModel,
            ParseErrorModel,
        >(EventModel {
            number: e.number,
            mpi: e.mpi,
            scale: e.scale,
            alpha_qcd: e.alpha_qcd,
            alpha_qed: e.alpha_qed,
            signal_process_id: e.signal_process_id,
            signal_process_vertex: e.signal_process_vertex,
            random_states: e.random_states,
            weights: e.weights,
            ..crate::event::spec_default_event()
        }),
{
    lemma_zero_tok();
    line_event_prefix(e);
    let s = crate::writer::spec_event_line(e);
    let zero = crate::event::zero_text();
    let t1 = spec_i32_text(e.number);
    let t2 = spec_i32_text(e.mpi);
    let t6 = spec_i32_text(e.signal_process_id);
    let t7 = spec_i32_text(e.signal_process_vertex);
    let nv = dec_digits(e.vertices.len());
    let nr = dec_digits(e.random_states.len());
    let nw = dec_digits(e.weights.len());
    let rpart = cat_sp(e.random_states.map_values(|v: int| spec_i32_text(v)));
    let wpart = cat_sp(e.weights);
    let c1: int = 2 + t1.len() as int;
    let c2: int = c1 + 1 + t2.len() as int;
    let c3: int = c2 + 1 + e.scale.len() as int;
    let c4: int = c3 + 1 + e.alpha_qcd.len() as int;
    let c5: int = c4 + 1 + e.alpha_qed.len() as int;
    let c6: int = c5 + 1 + t6.len() as int;
    let c7: int = c6 + 1 + t7.len() as int;
    let c8: int = c7 + 1 + nv.len() as int;
    let c9: int = c8 + 2;
    let c10: int = c9 + 2;
    let c11: int = c10 + 1 + nr.len() as int;
    let c12: int = c11 + rpart.len() as int;
    let c13: int = c12 + 1 + nw.len() as int;
    let c14: int = c13 + wpart.len() as int;
    assert(s.len() == c14);
    assert(s.subrange(c10, c11) =~= sp(nr));
    if e.random_states.len() > 0 {
        lemma_cat_sp_first(e.random_states.map_values(|v: int| spec_i32_text(v)));
        assert(s[c11] == rpart[0]);
        assert(rpart[0] == ' ');
    } else {
        assert(s[c11] == ' ');
    }
    step_u64(s, c10, e.random_states.len());
    assert(s.subrange(c11, c12) =~= rpart);
    assert(s[c12] == ' ');
    list_i32s(s, c11, e.random_states);
    assert(s.subrange(c12, c13) =~= sp(nw));
    if e.weights.len() > 0 {
        lemma_cat_sp_first(e.weights);
        assert(s[c13] == wpart[0]);
        assert(wpart[0] == ' ');
    }
    step_u64(s, c12, e.weights.len());
    assert(s.subrange(c13, c14) =~= wpart);
    list_floats(s, c13, e.weights);
}

// ---------------------------------------------------------------------------
// body-level round trips: particles, vertex blocks
// ---------------------------------------------------------------------------

/// A non-empty sequence of vertex blocks begins with its first block.
pub proof fn lemma_blocks_first(vs: Seq<VertexModel>)
    requires
        vs.len() > 0,
    ensures
        crate::writer::spec_vertex_blocks(vs) == crate::writer::spec_vertex_block(vs.first())
            + crate::writer::spec_vertex_blocks(vs.drop_first()),
    decreases vs.len(),
{
    if vs.len() == 1 {
        assert(vs.drop_last() =~= Seq::<VertexModel>::empty());
        assert(vs.drop_first() =~= Seq::<VertexModel>::empty());
        assert(vs.last() == vs.first());
        assert(crate::writer::spec_vertex_blocks(vs) =~= crate::writer::spec_vertex_block(
            vs.first(),
        ) + crate::writer::spec_vertex_blocks(vs.drop_first()));
    } else {
        lemma_blocks_first(vs.drop_last());
        assert(vs.drop_last().first() == vs.first());
        assert(vs.drop_first().drop_last() =~= vs.drop_last().drop_first());
        assert(vs.drop_first().last() == vs.last());
        assert(crate::writer::spec_vertex_blocks(vs.drop_first())
            == crate::writer::spec_vertex_blocks(vs.drop_first().drop_last())
            + crate::writer::spec_vertex_block(vs.drop_first().last()));
        assert(crate::writer::spec_vertex_blocks(vs) =~= crate::writer::spec_vertex_block(
            vs.first(),
        ) + crate::writer::spec_vertex_blocks(vs.drop_first()));
    }
}

/// Parsing the rendered lines of the incoming particles, in order, appends
/// each to the incoming list of the last vertex.
#[verifier::rlimit(100)]
#[verifier::spinoff_prover]
pub proof fn lemma_parse_particles_in(
    lines: Seq<Seq<char>>,
    pos: int,
    e: EventModel,
    v: VertexModel,
    k: int,
)
    requires
        crate::event::wf_vertex(v),
        bounded_vertex(v),
        linked_vertex(v),
        0 <= k <= v.particles_in.len(),
        0 <= pos <= lines.len(),
        pos + v.particles_in.len() - k <= lines.len(),
        forall|m: int|
            k <= m < v.particles_in.len() ==> lines[pos + m - k]
                == crate::writer::spec_particle_line(#[trigger] v.particles_in[m]),
        e.vertices.len() > 0,
        e.vertices.last() == (VertexModel {
            particles_in: v.particles_in.take(k),
            particles_out: Seq::empty(),
            ..v
        }),
    ensures
        crate::reader::spec_parse_body(lines, pos, e) == crate::reader::spec_parse_body(
            lines,
            pos + v.particles_in.len() - k,
            EventModel {
                vertices: e.vertices.update(
                    e.vertices.len() - 1,
                    VertexModel {
                        particles_in: v.particles_in,
                        particles_out: Seq::empty(),
                        ..v
                    },
                ),
                ..e
            },
        ),
    decreases v.particles_in.len() - k,
{
    let n = e.vertices.len() as int;
    if k == v.particles_in.len() {
        assert(v.particles_in.take(k) =~= v.particles_in);
        assert(e.vertices.update(n - 1, e.vertices.last()) =~= e.vertices);
        assert(EventModel {
            vertices: e.vertices.update(
                n - 1,
                VertexModel { particles_in: v.particles_in, particles_out: Seq::empty(), ..v },
            ),
            ..e
        } =~~= e);
    } else {
        let p = v.particles_in[k];
        let l = lines[pos];
        assert(l == crate::writer::spec_particle_line(p));
        assert(l[0] == 'P');
        assert(l.len() > 0);
        assert(pos < lines.len());
        line_particle_round(p, e);
        let linked = crate::reader::spec_link_particle(e, p);
        assert(p.end_vtx == v.barcode);
        assert(e.vertices.last().barcode == v.barcode);
        let v_mid = VertexModel {
            particles_in: v.particles_in.take(k).push(p),
            particles_out: Seq::empty(),
            ..v
        };
        assert(v.particles_in.take(k).push(p) =~= v.particles_in.take(k + 1));
        let e2 = EventModel { vertices: e.vertices.update(n - 1, v_mid), ..e };
        assert(linked == Ok::<EventModel, ParseErrorModel>(e2)) by {
            assert(crate::reader::spec_link_particle(e, p)->Ok_0 =~~= e2);
        };
        assert(crate::reader::spec_parse_particle_line(l, e) == Ok::<
            EventModel,
            ParseErrorModel,
        >(e2));
        assert(crate::reader::spec_parse_body(lines, pos, e) == crate::reader::spec_parse_body(lines, pos + 1, e2));
        assert(e2.vertices.len() == e.vertices.len());
        assert(e2.vertices.last() == v_mid);
        lemma_parse_particles_in(lines, pos + 1, e2, v, k + 1);
        assert(e2.vertices.update(n - 1, VertexModel {
            particles_in: v.particles_in,
            particles_out: Seq::empty(),
            ..v
        }) =~= e.vertices.update(n - 1, VertexModel {
            particles_in: v.particles_in,
            particles_out: Seq::empty(),
            ..v
        }));
        assert(EventModel {
            vertices: e2.vertices.update(n - 1, VertexModel {
                particles_in: v.particles_in,
                particles_out: Seq::empty(),
                ..v
            }),
            ..e2
        } =~~= EventModel {
            vertices: e.vertices.update(n - 1, VertexModel {
                particles_in: v.particles_in,
                particles_out: Seq::empty(),
                ..v
            }),
            ..e
        });
    }
}

/// Parsing the rendered lines of the outgoing particles, in order, appends
/// each to the outgoing list of the last vertex.
#[verifier::rlimit(100)]
#[verifier::spinoff_prover]
pub proof fn lemma_parse_particles_out(
    lines: Seq<Seq<char>>,
    pos: int,
    e: EventModel,
    v: VertexModel,
    k: int,
)
    requires
        crate::event::wf_vertex(v),
        bounded_vertex(v),
        linked_vertex(v),
        0 <= k <= v.particles_out.len(),
        0 <= pos <= lines.len(),
        pos + v.particles_out.len() - k <= lines.len(),
        forall|m: int|
            k <= m < v.particles_out.len() ==> lines[pos + m - k]
                == crate::writer::spec_particle_line(#[trigger] v.particles_out[m]),
        e.vertices.len() > 0,
        e.vertices.last() == (VertexModel {
            particles_in: v.particles_in,
            particles_out: v.particles_out.take(k),
            ..v
        }),
    ensures
        crate::reader::spec_parse_body(lines, pos, e) == crate::reader::spec_parse_body(
            lines,
            pos + v.particles_out.len() - k,
            EventModel { vertices: e.vertices.update(e.vertices.len() - 1, v), ..e },
        ),
    decreases v.particles_out.len() - k,
{
    let n = e.vertices.len() as int;
    if k == v.particles_out.len() {
        assert(v.particles_out.take(k) =~= v.particles_out);
        assert(VertexModel {
            particles_in: v.particles_in,
            particles_out: v.particles_out,
            ..v
        } =~~= v);
        assert(e.vertices.update(n - 1, v) =~= e.vertices);
        assert(EventModel { vertices: e.vertices.update(n - 1, v), ..e } =~~= e);
    } else {
        let p = v.particles_out[k];
        let l = lines[pos];
        assert(l == crate::writer::spec_particle_line(p));
        assert(l[0] == 'P');
        assert(l.len() > 0);
        assert(pos < lines.len());
        line_particle_round(p, e);
        assert(p.end_vtx != v.barcode);
        assert(e.vertices.last().barcode == v.barcode);
        let v_mid = VertexModel {
            particles_in: v.particles_in,
            particles_out: v.particles_out.take(k).push(p),
            ..v
        };
        assert(v.particles_out.take(k).push(p) =~= v.particles_out.take(k + 1));
        let e2 = EventModel { vertices: e.vertices.update(n - 1, v_mid), ..e };
        assert(crate::reader::spec_link_particle(e, p) == Ok::<EventModel, ParseErrorModel>(e2))
            by {
            assert(crate::reader::spec_link_particle(e, p)->Ok_0 =~~= e2);
        };
        assert(crate::reader::spec_parse_body(lines, pos, e) == crate::reader::spec_parse_body(lines, pos + 1, e2));
        assert(e2.vertices.len() == e.vertices.len());
        assert(e2.vertices.last() == v_mid);
        lemma_parse_particles_out(lines, pos + 1, e2, v, k + 1);
        assert(e2.vertices.update(n - 1, v) =~= e.vertices.update(n - 1, v));
        assert(EventModel { vertices: e2.vertices.update(n - 1, v), ..e2 } =~~= EventModel {
            vertices: e.vertices.update(n - 1, v),
            ..e
        });
    }
}


/// Parsing the rendered block of one vertex appends exactly that vertex.
#[verifier::rlimit(100)]
#[verifier::spinoff_prover]
pub proof fn lemma_parse_vertex_block(lines: Seq<Seq<char>>, pos: int, e: EventModel, v: VertexModel)
    requires
        crate::event::wf_vertex(v),
        bounded_vertex(v),
        linked_vertex(v),
        0 <= pos,
        pos + crate::writer::spec_vertex_block(v).len() <= lines.len(),
        forall|m: int|
            0 <= m < crate::writer::spec_vertex_block(v).len() ==> lines[pos + m]
                == #[trigger] crate::writer::spec_vertex_block(v)[m],
    ensures
        crate::reader::spec_parse_body(lines, pos, e) == crate::reader::spec_parse_body(
            lines,
            pos + crate::writer::spec_vertex_block(v).len(),
            EventModel { vertices: e.vertices.push(v), ..e },
        ),
{
    let block = crate::writer::spec_vertex_block(v);
    let ni = v.particles_in.len() as int;
    let no = v.particles_out.len() as int;
    let l = lines[pos];
    assert(l == block[0]);
    assert(l == crate::writer::spec_vertex_line(v));
    assert(l[0] == 'V');
    assert(l.len() > 0);
    line_vertex_round(v, e);
    let v0 = VertexModel { particles_in: Seq::empty(), particles_out: Seq::empty(), ..v };
    let e1 = EventModel { vertices: e.vertices.push(v0), ..e };
    assert(crate::reader::spec_parse_vertex_line(l, e) == Ok::<EventModel, ParseErrorModel>(e1));
    assert(crate::reader::spec_parse_body(lines, pos, e) == crate::reader::spec_parse_body(
        lines,
        pos + 1,
        e1,
    ));
    let n1 = e1.vertices.len() as int;
    assert(e1.vertices.last() == v0);
    assert(v0 == (VertexModel {
        particles_in: v.particles_in.take(0),
        particles_out: Seq::empty(),
        ..v
    })) by {
        assert(v.particles_in.take(0) =~= Seq::<ParticleModel>::empty());
    };
    assert forall|m: int| 0 <= m < ni implies lines[pos + 1 + m]
        == crate::writer::spec_particle_line(#[trigger] v.particles_in[m]) by {
        assert(lines[pos + 1 + m] == block[1 + m]);
        assert(block[1 + m] == v.particles_in.map_values(
            |p: ParticleModel| crate::writer::spec_particle_line(p),
        )[m]);
    }
    lemma_parse_particles_in(lines, pos + 1, e1, v, 0);
    let v_in = VertexModel { particles_in: v.particles_in, particles_out: Seq::empty(), ..v };
    let e2 = EventModel { vertices: e1.vertices.update(n1 - 1, v_in), ..e1 };
    assert(crate::reader::spec_parse_body(lines, pos + 1, e1) == crate::reader::spec_parse_body(
        lines,
        pos + 1 + ni,
        e2,
    ));
    assert(e2.vertices.len() == n1);
    assert(e2.vertices.last() == v_in);
    assert(v_in == (VertexModel {
        particles_in: v.particles_in,
        particles_out: v.particles_out.take(0),
        ..v
    })) by {
        assert(v.particles_out.take(0) =~= Seq::<ParticleModel>::empty());
    };
    assert forall|m: int| 0 <= m < no implies lines[pos + 1 + ni + m]
        == crate::writer::spec_particle_line(#[trigger] v.particles_out[m]) by {
        assert(lines[pos + 1 + ni + m] == block[1 + ni + m]);
        assert(block[1 + ni + m] == v.particles_out.map_values(
            |p: ParticleModel| crate::writer::spec_particle_line(p),
        )[m]);
    }
    lemma_parse_particles_out(lines, pos + 1 + ni, e2, v, 0);
    let e3 = EventModel { vertices: e2.vertices.update(n1 - 1, v), ..e2 };
    assert(crate::reader::spec_parse_body(lines, pos + 1 + ni, e2)
        == crate::reader::spec_parse_body(lines, pos + 1 + ni + no, e3));
    assert(block.len() == 1 + ni + no);
    assert(e3 =~~= EventModel { vertices: e.vertices.push(v), ..e }) by {
        assert(e2.vertices.update(n1 - 1, v) =~= e.vertices.push(v));
    };
}

/// Parsing the rendered blocks of a vertex list appends exactly those
/// vertices, in order.
#[verifier::rlimit(100)]
#[verifier::spinoff_prover]
pub proof fn lemma_parse_vertex_blocks(
    lines: Seq<Seq<char>>,
    pos: int,
    e: EventModel,
    vs: Seq<VertexModel>,
)
    requires
        forall|m: int| 0 <= m < vs.len() ==> crate::event::wf_vertex(#[trigger] vs[m]),
        forall|m: int| 0 <= m < vs.len() ==> bounded_vertex(#[trigger] vs[m]),
        forall|m: int| 0 <= m < vs.len() ==> linked_vertex(#[trigger] vs[m]),
        0 <= pos,
        pos + crate::writer::spec_vertex_blocks(vs).len() <= lines.len(),
        forall|m: int|
            0 <= m < crate::writer::spec_vertex_blocks(vs).len() ==> lines[pos + m]
                == #[trigger] crate::writer::spec_vertex_blocks(vs)[m],
    ensures
        crate::reader::spec_parse_body(lines, pos, e) == crate::reader::spec_parse_body(
            lines,
            pos + crate::writer::spec_vertex_blocks(vs).len(),
            EventModel { vertices: e.vertices + vs, ..e },
        ),
    decreases vs.len(),
{
    let blocks = crate::writer::spec_vertex_blocks(vs);
    if vs.len() == 0 {
        assert(blocks =~= Seq::<Seq<char>>::empty());
        assert(e.vertices + vs =~= e.vertices);
        assert(EventModel { vertices: e.vertices + vs, ..e } =~~= e);
    } else {
        lemma_blocks_first(vs);
        let v0 = vs.first();
        let rest = vs.drop_first();
        let b0 = crate::writer::spec_vertex_block(v0);
        assert forall|m: int| 0 <= m < b0.len() implies lines[pos + m] == #[trigger] b0[m] by {
            assert(lines[pos + m] == blocks[m]);
            assert(blocks[m] == b0[m]);
        }
        lemma_parse_vertex_block(lines, pos, e, v0);
        let e1 = EventModel { vertices: e.vertices.push(v0), ..e };
        assert forall|m: int| 0 <= m < crate::writer::spec_vertex_blocks(rest).len() implies lines[
            pos + b0.len() + m
        ] == #[trigger] crate::writer::spec_vertex_blocks(rest)[m] by {
            assert(lines[pos + b0.len() + m] == blocks[b0.len() + m]);
            assert(blocks[b0.len() + m] == crate::writer::spec_vertex_blocks(rest)[m]);
        }
        lemma_parse_vertex_blocks(lines, pos + b0.len(), e1, rest);
        assert(e1.vertices + rest =~= e.vertices + vs);
        assert(EventModel { vertices: e1.vertices + rest, ..e1 } =~~= EventModel {
            vertices: e.vertices + vs,
            ..e
        });
    }
}

/// Parsing the `E` line and the fixed head of the body (the optional `N`
/// line, then `U`, `C`, `F` and the optional `H` line) rebuilds everything of
/// the event but its vertices.
#[verifier::rlimit(100)]
#[verifier::spinoff_prover]
pub proof fn lemma_parse_event_head(lines: Seq<Seq<char>>, pos: int, e: EventModel)
    requires
        wf_event(e),
        bounded_event(e),
        0 <= pos,
        pos + crate::writer::spec_event_lines(e).len() - 1 <= lines.len(),
        forall|m: int|
            0 <= m < crate::writer::spec_event_lines(e).len() - 1 ==> lines[pos + m]
                == #[trigger] crate::writer::spec_event_lines(e)[m + 1],
    ensures
        ({
            let has_n: int = if e.weight_names.len() > 0 { 1 } else { 0 };
            let has_h: int = if e.heavy_ion_info is Some { 1 } else { 0 };
            crate::reader::spec_parse_block(lines, pos, crate::writer::spec_event_line(e))
                == crate::reader::spec_parse_body(
                lines,
                pos + 3 + has_n + has_h,
                EventModel { vertices: Seq::empty(), ..e },
            )
        }),
{
    let ls = crate::writer::spec_event_lines(e);
    let blocks = crate::writer::spec_vertex_blocks(e.vertices);
    let has_n: int = if e.weight_names.len() > 0 { 1 } else { 0 };
    let has_h: int = if e.heavy_ion_info is Some { 1 } else { 0 };
    assert(ls.len() == 4 + has_n + has_h + blocks.len());
    line_event_round(e);
    let e0 = EventModel {
        number: e.number,
        mpi: e.mpi,
        scale: e.scale,
        alpha_qcd: e.alpha_qcd,
        alpha_qed: e.alpha_qed,
        signal_process_id: e.signal_process_id,
        signal_process_vertex: e.signal_process_vertex,
        random_states: e.random_states,
        weights: e.weights,
        ..crate::event::spec_default_event()
    };
    assert(crate::reader::spec_parse_block(lines, pos, crate::writer::spec_event_line(e))
        == crate::reader::spec_parse_body(lines, pos, e0));
    // the optional N line
    let e1 = EventModel { weight_names: e.weight_names, ..e0 };
    let pos_u = pos + has_n;
    if e.weight_names.len() > 0 {
        let l = lines[pos];
        assert(l == ls[1]);
        assert(ls[1] == crate::writer::spec_names_line(e.weight_names));
        assert(l[0] == 'N');
        line_names_round(e.weight_names, e0);
        assert(crate::reader::spec_parse_body(lines, pos, e0) == crate::reader::spec_parse_body(
            lines,
            pos + 1,
            e1,
        ));
    } else {
        assert(e1 =~~= e0) by {
            assert(e.weight_names =~= Seq::<Seq<char>>::empty());
        };
    }
    // the U line
    let l_u = lines[pos_u];
    assert(l_u == ls[1 + has_n]);
    assert(ls[1 + has_n] == crate::writer::spec_units_line(e));
    assert(l_u[0] == 'U');
    line_units_round(e, e1);
    let e2 = EventModel { energy_unit: e.energy_unit, length_unit: e.length_unit, ..e1 };
    assert(crate::reader::spec_parse_body(lines, pos_u, e1) == crate::reader::spec_parse_body(
        lines,
        pos_u + 1,
        e2,
    ));
    // the C line
    let l_c = lines[pos_u + 1];
    assert(l_c == ls[2 + has_n]);
    assert(ls[2 + has_n] == crate::writer::spec_xs_line(e.xs));
    assert(l_c[0] == 'C');
    line_xs_round(e.xs, e2);
    let e3 = EventModel { xs: e.xs, ..e2 };
    assert(crate::reader::spec_parse_body(lines, pos_u + 1, e2) == crate::reader::spec_parse_body(
        lines,
        pos_u + 2,
        e3,
    ));
    // the F line
    let l_f = lines[pos_u + 2];
    assert(l_f == ls[3 + has_n]);
    assert(ls[3 + has_n] == crate::writer::spec_pdf_line(e.pdf_info));
    assert(l_f[0] == 'F');
    line_pdf_round(e.pdf_info, e3);
    let e4 = EventModel { pdf_info: e.pdf_info, ..e3 };
    assert(crate::reader::spec_parse_body(lines, pos_u + 2, e3) == crate::reader::spec_parse_body(
        lines,
        pos_u + 3,
        e4,
    ));
    // the optional H line
    let e5 = EventModel { heavy_ion_info: e.heavy_ion_info, ..e4 };
    if e.heavy_ion_info is Some {
        let h = e.heavy_ion_info->0;
        let l_h = lines[pos_u + 3];
        assert(l_h == ls[4 + has_n]);
        assert(ls[4 + has_n] == crate::writer::spec_heavy_line(h));
        assert(l_h[0] == 'H');
        assert(!crate::reader::spec_banner(l_h)) by {
            assert(l_h[1] == ' ');
            if crate::reader::spec_banner(l_h) {
                assert(l_h.subrange(0, 5)[1] == 'e');
            }
        };
        line_heavy_round(h, e4);
        assert(crate::reader::spec_parse_body(lines, pos_u + 3, e4)
            == crate::reader::spec_parse_body(lines, pos_u + 4, e5));
    } else {
        assert(e5 =~~= e4);
    }
    assert(e5 =~~= EventModel { vertices: Seq::empty(), ..e });
}

/// Parsing one whole rendered event block rebuilds exactly the event: the
/// `E` line from the buffer, then every body line in order.
#[verifier::rlimit(100)]
#[verifier::spinoff_prover]
pub proof fn lemma_parse_event_block(lines: Seq<Seq<char>>, pos: int, e: EventModel)
    requires
        wf_event(e),
        bounded_event(e),
        linked_event(e),
        0 <= pos,
        pos + crate::writer::spec_event_lines(e).len() - 1 <= lines.len(),
        forall|m: int|
            0 <= m < crate::writer::spec_event_lines(e).len() - 1 ==> lines[pos + m]
                == #[trigger] crate::writer::spec_event_lines(e)[m + 1],
    ensures
        crate::reader::spec_parse_block(lines, pos, crate::writer::spec_event_line(e))
            == crate::reader::spec_parse_body(
            lines,
            pos + crate::writer::spec_event_lines(e).len() - 1,
            e,
        ),
{
    let ls = crate::writer::spec_event_lines(e);
    let blocks = crate::writer::spec_vertex_blocks(e.vertices);
    let has_n: int = if e.weight_names.len() > 0 { 1 } else { 0 };
    let has_h: int = if e.heavy_ion_info is Some { 1 } else { 0 };
    assert(ls.len() == 4 + has_n + has_h + blocks.len());
    lemma_parse_event_head(lines, pos, e);
    let e5 = EventModel { vertices: Seq::empty(), ..e };
    let pos_b = pos + 3 + has_n + has_h;
    assert forall|m: int| 0 <= m < blocks.len() implies lines[pos_b + m] == #[trigger] blocks[m]
        by {
        let mi = 3 + has_n + has_h + m;
        assert(lines[pos + mi] == ls[mi + 1]);
        assert(ls[mi + 1] == blocks[m]);
    }
    lemma_parse_vertex_blocks(lines, pos_b, e5, e.vertices);
    let e6 = EventModel { vertices: e5.vertices + e.vertices, ..e5 };
    assert(crate::reader::spec_parse_body(lines, pos_b, e5) == crate::reader::spec_parse_body(
        lines,
        pos_b + blocks.len(),
        e6,
    ));
    assert(pos_b + blocks.len() == pos + ls.len() - 1);
    assert(e6 =~~= e) by {
        assert(e5.vertices + e.vertices =~= e.vertices);
    };
}

// ---------------------------------------------------------------------------
// the whole listing
// ---------------------------------------------------------------------------

/// The two header lines of the default banner.
pub open spec fn header_lines() -> Seq<Seq<char>> {
    seq!["HepMC::Version 2.06.09"@, "HepMC::IO_GenEvent-START_EVENT_LISTING"@]
}

/// The footer line that closes a listing.
pub open spec fn footer_line() -> Seq<char> {
    "HepMC::IO_GenEvent-END_EVENT_LISTING"@
}

/// Everything from the `E` line of the first remaining event through the
/// footer line.
pub open spec fn remaining_lines(evs: Seq<EventModel>) -> Seq<Seq<char>>
    decreases evs.len(),
{
    if evs.len() == 0 {
        seq![footer_line()]
    } else {
        crate::writer::spec_event_lines(evs.first()) + remaining_lines(evs.drop_first())
    }
}

/// The lines of a whole rendered listing: the default header, every event's
/// record lines in order, and the footer.
pub open spec fn spec_listing_lines(evs: Seq<EventModel>) -> Seq<Seq<char>> {
    header_lines() + remaining_lines(evs)
}

/// Pulling events from this reader state yields exactly `evs`, each parsed
/// without error, and then the end of the sequence.
pub open spec fn drained(lines: Seq<Seq<char>>, pos: int, line: Seq<char>, evs: Seq<EventModel>) -> bool
    decreases evs.len(),
{
    let (r, p2, l2) = crate::reader::spec_next(lines, pos, line);
    if evs.len() == 0 {
        r is None
    } else {
        r == Some(Ok::<EventModel, crate::reader::LineParseErrorModel>(evs.first())) && drained(
            lines,
            p2,
            l2,
            evs.drop_first(),
        )
    }
}

/// The framing lines are banners, and an `E` line is substantive.
pub proof fn lemma_framing_facts(e: EventModel)
    ensures
        crate::reader::spec_banner(header_lines()[0]),
        crate::reader::spec_banner(header_lines()[1]),
        crate::reader::spec_banner(footer_line()),
        footer_line().len() > 0,
        footer_line()[0] == 'H',
        !crate::reader::spec_blank(crate::writer::spec_event_line(e)),
        !crate::reader::spec_banner(crate::writer::spec_event_line(e)),
        crate::writer::spec_event_line(e).len() > 0,
        crate::writer::spec_event_line(e)[0] == 'E',
{
    reveal_strlit("HepMC::Version 2.06.09");
    reveal_strlit("HepMC::IO_GenEvent-START_EVENT_LISTING");
    reveal_strlit("HepMC::IO_GenEvent-END_EVENT_LISTING");
    assert(header_lines()[0].subrange(0, 5) =~= seq!['H', 'e', 'p', 'M', 'C']);
    assert(header_lines()[1].subrange(0, 5) =~= seq!['H', 'e', 'p', 'M', 'C']);
    assert(footer_line().subrange(0, 5) =~= seq!['H', 'e', 'p', 'M', 'C']);
    let el = crate::writer::spec_event_line(e);
    assert(el[0] == 'E');
    assert(!is_ws_char(el[0]));
    if crate::reader::spec_banner(el) {
        assert(el.subrange(0, 5)[0] == 'H');
        assert(false);
    }
}

/// Common part of reading the first remaining event: its block parses to the
/// event and the line that follows the block is the head of what remains.
#[verifier::rlimit(100)]
#[verifier::spinoff_prover]
pub proof fn lemma_first_block_parsed(lines: Seq<Seq<char>>, pos2: int, evs: Seq<EventModel>)
    requires
        evs.len() > 0,
        wf_event(evs.first()),
        bounded_event(evs.first()),
        linked_event(evs.first()),
        0 <= pos2 <= lines.len(),
        pos2 == lines.len() - (remaining_lines(evs).len() - 1),
        forall|m: int|
            0 <= m < remaining_lines(evs).len() - 1 ==> lines[pos2 + m] == #[trigger]
            remaining_lines(evs)[m + 1],
    ensures
        ({
            let e0 = evs.first();
            let rest = evs.drop_first();
            let ls = crate::writer::spec_event_lines(e0);
            let p_end = pos2 + ls.len() - 1;
            &&& remaining_lines(evs) == ls + remaining_lines(rest)
            &&& remaining_lines(rest).len() >= 1
            &&& p_end == lines.len() - (remaining_lines(rest).len() - 1) - 1
            &&& p_end < lines.len()
            &&& lines[p_end] == remaining_lines(rest)[0]
            &&& crate::reader::spec_parse_block(
                lines,
                pos2,
                crate::writer::spec_event_line(e0),
            ) == crate::reader::spec_parse_body(lines, p_end, e0)
            &&& (forall|m: int|
                0 <= m < remaining_lines(rest).len() - 1 ==> lines[p_end + 1 + m] == #[trigger]
                remaining_lines(rest)[m + 1])
        }),
{
    let e0 = evs.first();
    let rest = evs.drop_first();
    let rem = remaining_lines(evs);
    let ls = crate::writer::spec_event_lines(e0);
    let rem2 = remaining_lines(rest);
    assert(rem == ls + rem2);
    assert(rem2.len() >= 1) by {
        if rest.len() > 0 {
            assert(rem2 == crate::writer::spec_event_lines(rest.first()) + remaining_lines(
                rest.drop_first(),
            ));
        }
    };
    assert forall|m: int| 0 <= m < ls.len() - 1 implies lines[pos2 + m] == #[trigger] ls[m + 1] by {
        assert(lines[pos2 + m] == rem[m + 1]);
        assert(rem[m + 1] == ls[m + 1]);
    }
    lemma_parse_event_block(lines, pos2, e0);
    let p_end = pos2 + ls.len() - 1;
    let mi = ls.len() - 1;
    assert(mi < rem.len() - 1);
    assert(lines[pos2 + mi] == rem[mi + 1]);
    assert(lines[p_end] == rem[ls.len() as int]);
    assert(rem[ls.len() as int] == rem2[0]);
    assert forall|m: int| 0 <= m < rem2.len() - 1 implies lines[p_end + 1 + m] == #[trigger]
    rem2[m + 1] by {
        let mj = ls.len() + m;
        assert(mj < rem.len() - 1);
        assert(lines[pos2 + mj] == rem[mj + 1]);
        assert(rem[mj + 1] == rem2[m + 1]);
    }
}

/// One pull from a state that stands just before the remaining events: it
/// yields the first of them and lands just before the rest.
#[verifier::rlimit(100)]
#[verifier::spinoff_prover]
pub proof fn lemma_drain_step(
    lines: Seq<Seq<char>>,
    pos: int,
    line: Seq<char>,
    evs: Seq<EventModel>,
)
    requires
        evs.len() > 0,
        wf_event(evs.first()),
        bounded_event(evs.first()),
        linked_event(evs.first()),
        0 <= pos <= lines.len(),
        ({
            let rem = remaining_lines(evs);
            let pos2 = lines.len() - (rem.len() - 1);
            &&& 0 <= pos2 <= lines.len()
            &&& crate::reader::spec_skip(lines, pos, line) == (
                pos2,
                crate::writer::spec_event_line(evs.first()),
            )
            &&& forall|m: int| 0 <= m < rem.len() - 1 ==> lines[pos2 + m] == #[trigger] rem[m + 1]
        }),
    ensures
        ({
            let e0 = evs.first();
            let rest = evs.drop_first();
            let rem2 = remaining_lines(rest);
            let p2e = lines.len() - (rem2.len() - 1);
            let l2e = if rest.len() == 0 {
                Seq::<char>::empty()
            } else {
                crate::writer::spec_event_line(rest.first())
            };
            &&& crate::reader::spec_next(lines, pos, line) == (
                Some(Ok::<EventModel, crate::reader::LineParseErrorModel>(e0)),
                p2e,
                l2e,
            )
            &&& 0 <= p2e <= lines.len()
            &&& (rest.len() == 0 ==> crate::reader::spec_skip(lines, p2e, l2e) == (
                lines.len() as int,
                Seq::<char>::empty(),
            ))
            &&& (rest.len() > 0 ==> crate::reader::spec_skip(lines, p2e, l2e) == (p2e, l2e))
            &&& (rest.len() > 0 ==> forall|m: int|
                0 <= m < rem2.len() - 1 ==> lines[p2e + m] == #[trigger] rem2[m + 1])
        }),
{
    let e0 = evs.first();
    let rest = evs.drop_first();
    let rem = remaining_lines(evs);
    let rem2 = remaining_lines(rest);
    let ls = crate::writer::spec_event_lines(e0);
    let pos2 = lines.len() - (rem.len() - 1);
    lemma_framing_facts(e0);
    lemma_first_block_parsed(lines, pos2, evs);
    let p_end = pos2 + ls.len() - 1;
    if rest.len() == 0 {
        assert(rem2 == seq![footer_line()]);
        assert(lines[p_end] == footer_line());
        assert(p_end + 1 == lines.len());
        assert(crate::reader::spec_parse_body(lines, p_end, e0) == (
            Ok::<EventModel, ParseErrorModel>(e0),
            p_end + 1,
            Seq::<char>::empty(),
        )) by {
            assert(footer_line()[0] == 'H');
            assert(crate::reader::spec_banner(footer_line()));
            assert(crate::reader::spec_parse_body(lines, p_end + 1, e0) == (
                Ok::<EventModel, ParseErrorModel>(e0),
                p_end + 1,
                Seq::<char>::empty(),
            ));
        };
        assert(crate::reader::spec_skip(lines, lines.len() as int, Seq::<char>::empty()) == (
            lines.len() as int,
            Seq::<char>::empty(),
        ));
    } else {
        let e1 = rest.first();
        lemma_framing_facts(e1);
        assert(rem2 == crate::writer::spec_event_lines(e1) + remaining_lines(rest.drop_first()));
        assert(rem2[0] == crate::writer::spec_event_line(e1)) by {
            assert(crate::writer::spec_event_lines(e1)[0] == crate::writer::spec_event_line(e1));
        };
        assert(lines[p_end] == crate::writer::spec_event_line(e1));
        assert(crate::reader::spec_parse_body(lines, p_end, e0) == (
            Ok::<EventModel, ParseErrorModel>(e0),
            p_end + 1,
            crate::writer::spec_event_line(e1),
        ));
        assert(p_end + 1 == lines.len() - (rem2.len() - 1));
        assert(crate::reader::spec_skip(lines, p_end + 1, crate::writer::spec_event_line(e1)) == (
            p_end + 1,
            crate::writer::spec_event_line(e1),
        ));
    }
}

/// Pulling from a state that stands just before the remaining events reads
/// them all back, then ends.
pub proof fn lemma_drain_events(
    lines: Seq<Seq<char>>,
    pos: int,
    line: Seq<char>,
    evs: Seq<EventModel>,
)
    requires
        forall|m: int| 0 <= m < evs.len() ==> wf_event(#[trigger] evs[m]),
        forall|m: int| 0 <= m < evs.len() ==> bounded_event(#[trigger] evs[m]),
        forall|m: int| 0 <= m < evs.len() ==> linked_event(#[trigger] evs[m]),
        0 <= pos <= lines.len(),
        ({
            let rem = remaining_lines(evs);
            if evs.len() == 0 {
                crate::reader::spec_skip(lines, pos, line) == (
                    lines.len() as int,
                    Seq::<char>::empty(),
                )
            } else {
                let pos2 = lines.len() - (rem.len() - 1);
                &&& 0 <= pos2 <= lines.len()
                &&& crate::reader::spec_skip(lines, pos, line) == (
                    pos2,
                    crate::writer::spec_event_line(evs.first()),
                )
                &&& forall|m: int|
                    0 <= m < rem.len() - 1 ==> lines[pos2 + m] == #[trigger] rem[m + 1]
            }
        }),
    ensures
        drained(lines, pos, line, evs),
    decreases evs.len(),
{
    if evs.len() == 0 {
        assert(crate::reader::spec_next(lines, pos, line).0 is None);
    } else {
        lemma_drain_step(lines, pos, line, evs);
        let (r, p2, l2) = crate::reader::spec_next(lines, pos, line);
        lemma_drain_events(lines, p2, l2, evs.drop_first());
    }
}

/// Round-trip identity and count preservation: reading the rendered listing
/// of any sequence of events whose particle placement agrees with the
/// classification rule and whose fields fit their wire types yields exactly
/// those events, in order, each without error, and then the end of the
/// sequence.
#[verifier::rlimit(100)]
#[verifier::spinoff_prover]
pub proof fn lemma_listing_round_trip(evs: Seq<EventModel>)
    requires
        forall|m: int| 0 <= m < evs.len() ==> wf_event(#[trigger] evs[m]),
        forall|m: int| 0 <= m < evs.len() ==> bounded_event(#[trigger] evs[m]),
        forall|m: int| 0 <= m < evs.len() ==> linked_event(#[trigger] evs[m]),
    ensures
        drained(spec_listing_lines(evs), 0, Seq::empty(), evs),
{
    let lines = spec_listing_lines(evs);
    let rem = remaining_lines(evs);
    assert(lines.len() == 2 + rem.len());
    let h0 = header_lines()[0];
    let h1 = header_lines()[1];
    assert(lines[0] == h0);
    assert(lines[1] == h1);
    assert(crate::reader::spec_blank(Seq::<char>::empty()));
    if evs.len() == 0 {
        lemma_framing_facts(crate::event::spec_default_event());
        assert(rem == seq![footer_line()]);
        assert(lines[2] == footer_line());
        assert(crate::reader::spec_skip(lines, 0, Seq::empty()) == (
            lines.len() as int,
            Seq::<char>::empty(),
        )) by {
            assert(crate::reader::spec_skip(lines, 3, footer_line()) == (
                lines.len() as int,
                Seq::<char>::empty(),
            ));
            assert(crate::reader::spec_skip(lines, 2, h1) == crate::reader::spec_skip(
                lines,
                3,
                lines[2],
            ));
            assert(crate::reader::spec_skip(lines, 1, h0) == crate::reader::spec_skip(
                lines,
                2,
                lines[1],
            ));
            assert(crate::reader::spec_skip(lines, 0, Seq::empty()) == crate::reader::spec_skip(
                lines,
                1,
                lines[0],
            ));
        };
        lemma_drain_events(lines, 0, Seq::empty(), evs);
    } else {
        let e0 = evs.first();
        lemma_framing_facts(e0);
        assert(rem == crate::writer::spec_event_lines(e0) + remaining_lines(evs.drop_first()));
        assert(rem[0] == crate::writer::spec_event_line(e0)) by {
            assert(crate::writer::spec_event_lines(e0)[0] == crate::writer::spec_event_line(e0));
        };
        assert(lines[2] == rem[0]);
        assert(crate::reader::spec_skip(lines, 0, Seq::empty()) == (
            3int,
            crate::writer::spec_event_line(e0),
        )) by {
            assert(crate::reader::spec_skip(lines, 3, crate::writer::spec_event_line(e0)) == (
                3int,
                crate::writer::spec_event_line(e0),
            ));
            assert(crate::reader::spec_skip(lines, 2, h1) == crate::reader::spec_skip(
                lines,
                3,
                lines[2],
            ));
            assert(crate::reader::spec_skip(lines, 1, h0) == crate::reader::spec_skip(
                lines,
                2,
                lines[1],
            ));
            assert(crate::reader::spec_skip(lines, 0, Seq::empty()) == crate::reader::spec_skip(
                lines,
                1,
                lines[0],
            ));
        };
        assert(3 == lines.len() - (rem.len() - 1));
        assert forall|m: int| 0 <= m < rem.len() - 1 implies lines[3 + m] == #[trigger] rem[m + 1]
            by {
            assert(lines[3 + m] == (header_lines() + rem)[3 + m]);
        }
        lemma_drain_events(lines, 0, Seq::empty(), evs);
    }
}

/// Splitting a joined line row distributes over concatenation.
pub proof fn lemma_lines_text_app(a: Seq<Seq<char>>, b: Seq<Seq<char>>)
    ensures
        crate::writer::lines_text(a + b) == crate::writer::lines_text(a)
            + crate::writer::lines_text(b),
    decreases b.len(),
{
    if b.len() == 0 {
        assert(a + b =~= a);
        assert(crate::writer::lines_text(a) + crate::writer::lines_text(b)
            =~= crate::writer::lines_text(a));
    } else {
        lemma_lines_text_app(a, b.drop_last());
        assert((a + b).drop_last() =~= a + b.drop_last());
        assert((a + b).last() == b.last());
        assert(crate::writer::lines_text(a + b) =~= crate::writer::lines_text(a)
            + crate::writer::lines_text(b));
    }
}

/// A non-empty sequence of event texts begins with its first event's text.
pub proof fn lemma_events_text_first(evs: Seq<EventModel>)
    requires
        evs.len() > 0,
    ensures
        crate::writer::spec_events_text(evs) == crate::writer::lines_text(
            crate::writer::spec_event_lines(evs.first()),
        ) + crate::writer::spec_events_text(evs.drop_first()),
    decreases evs.len(),
{
    if evs.len() == 1 {
        assert(evs.drop_last() =~= Seq::<EventModel>::empty());
        assert(evs.drop_first() =~= Seq::<EventModel>::empty());
        assert(evs.last() == evs.first());
        assert(crate::writer::spec_events_text(evs) =~= crate::writer::lines_text(
            crate::writer::spec_event_lines(evs.first()),
        ) + crate::writer::spec_events_text(evs.drop_first()));
    } else {
        lemma_events_text_first(evs.drop_last());
        assert(evs.drop_last().first() == evs.first());
        assert(evs.drop_first().drop_last() =~= evs.drop_last().drop_first());
        assert(evs.drop_first().last() == evs.last());
        assert(crate::writer::spec_events_text(evs.drop_first())
            == crate::writer::spec_events_text(evs.drop_first().drop_last())
            + crate::writer::lines_text(crate::writer::spec_event_lines(evs.drop_first().last())));
        assert(crate::writer::spec_events_text(evs) =~= crate::writer::lines_text(
            crate::writer::spec_event_lines(evs.first()),
        ) + crate::writer::spec_events_text(evs.drop_first()));
    }
}

/// The text the writer renders for a whole listing is exactly the listing
/// lines joined with newlines: what [`lemma_listing_round_trip`] reads back
/// is what [`crate::writer::write_events_to_string`] renders.
pub proof fn lemma_listing_text(evs: Seq<EventModel>)
    ensures
        crate::writer::spec_default_header() + crate::writer::spec_events_text(evs)
            + crate::writer::spec_footer() == crate::writer::lines_text(spec_listing_lines(evs)),
{
    reveal_strlit("HepMC::Version 2.06.09\nHepMC::IO_GenEvent-START_EVENT_LISTING\n");
    reveal_strlit("HepMC::Version 2.06.09");
    reveal_strlit("HepMC::IO_GenEvent-START_EVENT_LISTING");
    reveal_strlit("HepMC::IO_GenEvent-END_EVENT_LISTING\n");
    reveal_strlit("HepMC::IO_GenEvent-END_EVENT_LISTING");
    lemma_lines_text_app(header_lines(), remaining_lines(evs));
    assert(crate::writer::lines_text(header_lines()) =~= crate::writer::spec_default_header()) by {
        assert(header_lines().drop_last() =~= seq![header_lines()[0]]);
        assert(seq![header_lines()[0]].drop_last() =~= Seq::<Seq<char>>::empty());
        assert(crate::writer::lines_text(header_lines()) == crate::writer::lines_text(
            seq![header_lines()[0]],
        ) + header_lines()[1] + seq!['\n']);
        assert(crate::writer::lines_text(seq![header_lines()[0]]) == crate::writer::lines_text(
            Seq::<Seq<char>>::empty(),
        ) + header_lines()[0] + seq!['\n']);
    };
    lemma_remaining_text(evs);
}

/// The footer line joined with its newline is the footer text.
pub proof fn lemma_footer_text()
    ensures
        crate::writer::lines_text(seq![footer_line()]) == crate::writer::spec_footer(),
{
    reveal_strlit("HepMC::IO_GenEvent-END_EVENT_LISTING\n");
    reveal_strlit("HepMC::IO_GenEvent-END_EVENT_LISTING");
    assert(seq![footer_line()].drop_last() =~= Seq::<Seq<char>>::empty());
    assert(crate::writer::lines_text(seq![footer_line()]) == crate::writer::lines_text(
        Seq::<Seq<char>>::empty(),
    ) + footer_line() + seq!['\n']);
    assert(crate::writer::lines_text(Seq::<Seq<char>>::empty()) + footer_line() + seq!['\n']
        =~= crate::writer::spec_footer());
}

/// The text from the first remaining `E` line through the footer.
#[verifier::rlimit(100)]
#[verifier::spinoff_prover]
pub proof fn lemma_remaining_text(evs: Seq<EventModel>)
    ensures
        crate::writer::lines_text(remaining_lines(evs)) == crate::writer::spec_events_text(evs)
            + crate::writer::spec_footer(),
    decreases evs.len(),
{
    if evs.len() == 0 {
        lemma_footer_text();
        assert(crate::writer::spec_events_text(evs) + crate::writer::spec_footer()
            =~= crate::writer::spec_footer());
    } else {
        lemma_events_text_first(evs);
        lemma_remaining_text(evs.drop_first());
        lemma_lines_text_app(
            crate::writer::spec_event_lines(evs.first()),
            remaining_lines(evs.drop_first()),
        );
        assert(crate::writer::lines_text(remaining_lines(evs)) =~= crate::writer::spec_events_text(
            evs,
        ) + crate::writer::spec_footer());
    }
}

} // verus!
