//! The write side: rendering events back into the exact record grammar, and
//! the [`Writer`] that frames them with the header and footer.

use vstd::prelude::*;
use vstd::string::*;

use crate::event::{
    counts_ok, zero_text, CrossSectionModel, Event, EventModel, HeavyIonInfoModel, Particle, ParticleModel,
    PdfInfoModel, Vertex, VertexModel,
};
use crate::tokens::{dec_digits, i32_text, spec_i32_text, usize_text};

verus! {

// ---------------------------------------------------------------------------
// the rendered grammar, as specification
// ---------------------------------------------------------------------------

/// A token as it stands in a line: one separating space, then the token text.
pub open spec fn sp(t: Seq<char>) -> Seq<char> {
    seq![' '] + t
}

/// A row of tokens, each preceded by its separating space.
pub open spec fn cat_sp(ts: Seq<Seq<char>>) -> Seq<char>
    decreases ts.len(),
{
    if ts.len() == 0 {
        Seq::empty()
    } else {
        cat_sp(ts.drop_last()) + sp(ts.last())
    }
}

/// A weight name as it stands in an `N` line: wrapped in double quotes.
pub open spec fn quoted(n: Seq<char>) -> Seq<char> {
    seq!['"'] + n + seq!['"']
}

/// Flow pairs as they stand in a `P` line: index and value, alternating.
pub open spec fn cat_flows(fs: Seq<(int, int)>) -> Seq<char>
    decreases fs.len(),
{
    if fs.len() == 0 {
        Seq::empty()
    } else {
        cat_flows(fs.drop_last()) + sp(spec_i32_text(fs.last().0)) + sp(spec_i32_text(fs.last().1))
    }
}

/// Lines joined into a text, each terminated by a newline.
pub open spec fn lines_text(ls: Seq<Seq<char>>) -> Seq<char>
    decreases ls.len(),
{
    if ls.len() == 0 {
        Seq::empty()
    } else {
        lines_text(ls.drop_last()) + ls.last() + seq!['\n']
    }
}

/// The `E` line of an event: scalars, the vertex count, two placeholder
/// fields, then the count-prefixed random states and weights.
pub open spec fn spec_event_line(e: EventModel) -> Seq<char> {
    seq!['E'] + sp(spec_i32_text(e.number)) + sp(spec_i32_text(e.mpi)) + sp(e.scale) + sp(
        e.alpha_qcd,
    ) + sp(e.alpha_qed) + sp(spec_i32_text(e.signal_process_id)) + sp(
        spec_i32_text(e.signal_process_vertex),
    ) + sp(dec_digits(e.vertices.len())) + sp(zero_text()) + sp(zero_text()) + sp(
        dec_digits(e.random_states.len()),
    ) + cat_sp(e.random_states.map_values(|v: int| spec_i32_text(v))) + sp(
        dec_digits(e.weights.len()),
    ) + cat_sp(e.weights)
}

/// The `N` line: the name count, then each name in quotes.
pub open spec fn spec_names_line(names: Seq<Seq<char>>) -> Seq<char> {
    seq!['N'] + sp(dec_digits(names.len())) + cat_sp(names.map_values(|n: Seq<char>| quoted(n)))
}

/// The `U` line: the two unit tokens.
pub open spec fn spec_units_line(e: EventModel) -> Seq<char> {
    seq!['U'] + sp(e.energy_unit.spec_token()) + sp(e.length_unit.spec_token())
}

/// The `C` line: the cross section and its uncertainty.
pub open spec fn spec_xs_line(x: CrossSectionModel) -> Seq<char> {
    seq!['C'] + sp(x.cross_section) + sp(x.cross_section_error)
}

/// The `F` line: the seven PDF fields and both PDF-set ids.
pub open spec fn spec_pdf_line(p: PdfInfoModel) -> Seq<char> {
    seq!['F'] + sp(spec_i32_text(p.parton_id0)) + sp(spec_i32_text(p.parton_id1)) + sp(p.x0) + sp(
        p.x1,
    ) + sp(p.scale) + sp(p.xf0) + sp(p.xf1) + sp(spec_i32_text(p.pdf_id0)) + sp(
        spec_i32_text(p.pdf_id1),
    )
}

/// The `H` line: the thirteen heavy-ion fields.
pub open spec fn spec_heavy_line(h: HeavyIonInfoModel) -> Seq<char> {
    seq!['H'] + sp(spec_i32_text(h.ncoll_hard)) + sp(spec_i32_text(h.npart_proj)) + sp(
        spec_i32_text(h.npart_targ),
    ) + sp(spec_i32_text(h.ncoll)) + sp(spec_i32_text(h.spectator_neutrons)) + sp(
        spec_i32_text(h.spectator_protons),
    ) + sp(spec_i32_text(h.n_nwounded_collisions)) + sp(spec_i32_text(h.nwounded_n_collisions))
        + sp(spec_i32_text(h.nwounded_nwounded_collisions)) + sp(h.impact_parameter) + sp(
        h.event_plane_angle,
    ) + sp(h.eccentricity) + sp(h.sigma_inel_nn)
}

/// The `V` line: barcode, status, position, a placeholder orphan count, the
/// total particle count, then the count-prefixed vertex weights.
pub open spec fn spec_vertex_line(v: VertexModel) -> Seq<char> {
    seq!['V'] + sp(spec_i32_text(v.barcode)) + sp(spec_i32_text(v.status)) + sp(v.x) + sp(v.y) + sp(
        v.z,
    ) + sp(v.t) + sp(zero_text()) + sp(
        dec_digits((v.particles_in.len() + v.particles_out.len()) as nat),
    ) + sp(dec_digits(v.weights.len())) + cat_sp(v.weights)
}

/// The `P` line: a placeholder barcode, the particle id, momentum in
/// (px, py, pz, E) order, mass, status, both angles, the end-vertex barcode,
/// then the count-prefixed flow pairs in ascending key order.
pub open spec fn spec_particle_line(p: ParticleModel) -> Seq<char> {
    seq!['P'] + sp(zero_text()) + sp(spec_i32_text(p.id)) + sp(p.p.x) + sp(p.p.y) + sp(p.p.z) + sp(
        p.p.t,
    ) + sp(p.m) + sp(spec_i32_text(p.status)) + sp(p.theta) + sp(p.phi) + sp(
        spec_i32_text(p.end_vtx),
    ) + sp(dec_digits(p.flows.len())) + cat_flows(p.flows)
}

/// The lines of one vertex: its `V` line, then a `P` line for each incoming
/// particle, then one for each outgoing particle, never interleaved.
pub open spec fn spec_vertex_block(v: VertexModel) -> Seq<Seq<char>> {
    seq![spec_vertex_line(v)] + v.particles_in.map_values(|p: ParticleModel| spec_particle_line(p))
        + v.particles_out.map_values(|p: ParticleModel| spec_particle_line(p))
}

/// The vertex blocks of an event, in declaration order.
pub open spec fn spec_vertex_blocks(vs: Seq<VertexModel>) -> Seq<Seq<char>>
    decreases vs.len(),
{
    if vs.len() == 0 {
        Seq::empty()
    } else {
        spec_vertex_blocks(vs.drop_last()) + spec_vertex_block(vs.last())
    }
}

/// All record lines of one event, in the exact interchange order; the `N`
/// line stands exactly when the name list is non-empty, the `H` line exactly
/// when heavy-ion information is present.
pub open spec fn spec_event_lines(e: EventModel) -> Seq<Seq<char>> {
    seq![spec_event_line(e)] + (if e.weight_names.len() > 0 {
        seq![spec_names_line(e.weight_names)]
    } else {
        Seq::empty()
    }) + seq![spec_units_line(e), spec_xs_line(e.xs), spec_pdf_line(e.pdf_info)] + (
    match e.heavy_ion_info {
        Some(h) => seq![spec_heavy_line(h)],
        None => Seq::empty(),
    }) + spec_vertex_blocks(e.vertices)
}

// ---------------------------------------------------------------------------
// rendering
// ---------------------------------------------------------------------------

fn push_tok(out: &mut String, t: &str)
    ensures
        final(out)@ == old(out)@ + sp(t@),
{
    proof {
        reveal_strlit(" ");
        assert(" "@ =~= seq![' ']);
    }
    out.append(" ");
    out.append(t);
    proof {
        assert(final(out)@ =~= old(out)@ + sp(t@));
    }
}

fn push_i32_tok(out: &mut String, v: i32)
    ensures
        final(out)@ == old(out)@ + sp(spec_i32_text(v as int)),
{
    let s = i32_text(v);
    push_tok(out, s.as_str());
}

fn push_usize_tok(out: &mut String, n: usize)
    ensures
        final(out)@ == old(out)@ + sp(dec_digits(n as nat)),
{
    let s = usize_text(n);
    push_tok(out, s.as_str());
}

fn push_float_list(out: &mut String, ts: &Vec<String>)
    ensures
        final(out)@ == old(out)@ + cat_sp(ts.deep_view()),
{
    let ghost tsv = ts.deep_view();
    let n = ts.len();
    let mut m: usize = 0;
    proof {
        assert(cat_sp(tsv.take(0)) =~= Seq::<char>::empty());
        assert(old(out)@ + cat_sp(tsv.take(0)) =~= old(out)@);
    }
    loop
        invariant
            m <= n == tsv.len(),
            tsv == ts.deep_view(),
            out@ == old(out)@ + cat_sp(tsv.take(m as int)),
        ensures
            m == n,
            out@ == old(out)@ + cat_sp(tsv.take(m as int)),
        decreases n - m,
    {
        if m == n {
            break ;
        }
        push_tok(out, ts[m].as_str());
        proof {
            assert(tsv.take(m + 1).drop_last() =~= tsv.take(m as int));
            assert(tsv.take(m + 1).last() == tsv[m as int]);
            assert(out@ =~= old(out)@ + cat_sp(tsv.take(m + 1)));
        }
        m = m + 1;
    }
    proof {
        assert(tsv.take(n as int) =~= tsv);
    }
}

/// Render the `E` line of an event (without its newline).
fn event_line_string(e: &Event) -> (r: String)
    ensures
        r@ == spec_event_line(e@),
{
    proof {
        reveal_strlit("E");
        assert("E"@ =~= seq!['E']);
    }
    let mut out = String::from_str("E");
    push_i32_tok(&mut out, e.number);
    push_i32_tok(&mut out, e.mpi);
    push_tok(&mut out, e.scale.as_str());
    push_tok(&mut out, e.alpha_qcd.as_str());
    push_tok(&mut out, e.alpha_qed.as_str());
    push_i32_tok(&mut out, e.signal_process_id);
    push_i32_tok(&mut out, e.signal_process_vertex);
    push_usize_tok(&mut out, e.vertices.len());
    push_usize_tok(&mut out, 0);
    push_usize_tok(&mut out, 0);
    push_usize_tok(&mut out, e.random_states.len());
    let ghost rsv = e@.random_states;
    let nr = e.random_states.len();
    let mut m: usize = 0;
    let ghost base = out@;
    proof {
        assert(dec_digits(0) =~= zero_text());
        assert(base + cat_sp(rsv.map_values(|v: int| spec_i32_text(v)).take(0)) =~= base);
    }
    loop
        invariant
            m <= nr == rsv.len(),
            rsv == e@.random_states,
            nr == e.random_states.len(),
            out@ == base + cat_sp(rsv.map_values(|v: int| spec_i32_text(v)).take(m as int)),
        ensures
            m == nr,
            out@ == base + cat_sp(rsv.map_values(|v: int| spec_i32_text(v)).take(m as int)),
        decreases nr - m,
    {
        if m == nr {
            break ;
        }
        push_i32_tok(&mut out, e.random_states[m]);
        proof {
            let mapped = rsv.map_values(|v: int| spec_i32_text(v));
            assert(mapped.take(m + 1).drop_last() =~= mapped.take(m as int));
            assert(mapped.take(m + 1).last() == mapped[m as int]);
            assert(out@ =~= base + cat_sp(mapped.take(m + 1)));
        }
        m = m + 1;
    }
    proof {
        let mapped = rsv.map_values(|v: int| spec_i32_text(v));
        assert(mapped.take(nr as int) =~= mapped);
    }
    push_usize_tok(&mut out, e.weights.len());
    push_float_list(&mut out, &e.weights);
    proof {
        assert(out@ =~= spec_event_line(e@));
    }
    out
}

/// Render the `N` line for a list of weight names (without its newline).
fn names_line_string(names: &Vec<String>) -> (r: String)
    ensures
        r@ == spec_names_line(names.deep_view()),
{
    proof {
        reveal_strlit("N");
        reveal_strlit("\"");
        assert("N"@ =~= seq!['N']);
        assert("\""@ =~= seq!['"']);
    }
    let mut out = String::from_str("N");
    push_usize_tok(&mut out, names.len());
    let ghost nsv = names.deep_view();
    let ghost base = out@;
    let n = names.len();
    let mut m: usize = 0;
    proof {
        assert(base + cat_sp(nsv.map_values(|q: Seq<char>| quoted(q)).take(0)) =~= base);
    }
    loop
        invariant
            m <= n == nsv.len(),
            nsv == names.deep_view(),
            n == names.len(),
            out@ == base + cat_sp(nsv.map_values(|q: Seq<char>| quoted(q)).take(m as int)),
        ensures
            m == n,
            out@ == base + cat_sp(nsv.map_values(|q: Seq<char>| quoted(q)).take(m as int)),
        decreases n - m,
    {
        if m == n {
            break ;
        }
        proof {
            reveal_strlit(" ");
            assert(" "@ =~= seq![' ']);
            reveal_strlit("\"");
            assert("\""@ =~= seq!['"']);
        }
        out.append(" ");
        out.append("\"");
        out.append(names[m].as_str());
        out.append("\"");
        proof {
            let mapped = nsv.map_values(|q: Seq<char>| quoted(q));
            assert(mapped.take(m + 1).drop_last() =~= mapped.take(m as int));
            assert(mapped.take(m + 1).last() == mapped[m as int]);
            assert(out@ =~= base + cat_sp(mapped.take(m + 1)));
        }
        m = m + 1;
    }
    proof {
        let mapped = nsv.map_values(|q: Seq<char>| quoted(q));
        assert(mapped.take(n as int) =~= mapped);
        assert(out@ =~= spec_names_line(nsv));
    }
    out
}

/// Render the `U` line of an event (without its newline).
fn units_line_string(e: &Event) -> (r: String)
    ensures
        r@ == spec_units_line(e@),
{
    proof {
        reveal_strlit("U");
        assert("U"@ =~= seq!['U']);
    }
    let mut out = String::from_str("U");
    push_tok(&mut out, e.energy_unit.token());
    push_tok(&mut out, e.length_unit.token());
    proof {
        assert(out@ =~= spec_units_line(e@));
    }
    out
}

/// Render the `C` line of an event (without its newline).
fn xs_line_string(e: &Event) -> (r: String)
    ensures
        r@ == spec_xs_line(e@.xs),
{
    proof {
        reveal_strlit("C");
        assert("C"@ =~= seq!['C']);
    }
    let mut out = String::from_str("C");
    push_tok(&mut out, e.xs.cross_section.as_str());
    push_tok(&mut out, e.xs.cross_section_error.as_str());
    proof {
        assert(out@ =~= spec_xs_line(e@.xs));
    }
    out
}

/// Render the `F` line of an event (without its newline).
fn pdf_line_string(e: &Event) -> (r: String)
    ensures
        r@ == spec_pdf_line(e@.pdf_info),
{
    proof {
        reveal_strlit("F");
        assert("F"@ =~= seq!['F']);
    }
    let mut out = String::from_str("F");
    push_i32_tok(&mut out, e.pdf_info.parton_id0);
    push_i32_tok(&mut out, e.pdf_info.parton_id1);
    push_tok(&mut out, e.pdf_info.x0.as_str());
    push_tok(&mut out, e.pdf_info.x1.as_str());
    push_tok(&mut out, e.pdf_info.scale.as_str());
    push_tok(&mut out, e.pdf_info.xf0.as_str());
    push_tok(&mut out, e.pdf_info.xf1.as_str());
    push_i32_tok(&mut out, e.pdf_info.pdf_id0);
    push_i32_tok(&mut out, e.pdf_info.pdf_id1);
    proof {
        assert(out@ =~= spec_pdf_line(e@.pdf_info));
    }
    out
}

/// Render the `H` line for heavy-ion information (without its newline).
fn heavy_line_string(h: &crate::event::HeavyIonInfo) -> (r: String)
    ensures
        r@ == spec_heavy_line(h@),
{
    proof {
        reveal_strlit("H");
        assert("H"@ =~= seq!['H']);
    }
    let mut out = String::from_str("H");
    push_i32_tok(&mut out, h.ncoll_hard);
    push_i32_tok(&mut out, h.npart_proj);
    push_i32_tok(&mut out, h.npart_targ);
    push_i32_tok(&mut out, h.ncoll);
    push_i32_tok(&mut out, h.spectator_neutrons);
    push_i32_tok(&mut out, h.spectator_protons);
    push_i32_tok(&mut out, h.n_nwounded_collisions);
    push_i32_tok(&mut out, h.nwounded_n_collisions);
    push_i32_tok(&mut out, h.nwounded_nwounded_collisions);
    push_tok(&mut out, h.impact_parameter.as_str());
    push_tok(&mut out, h.event_plane_angle.as_str());
    push_tok(&mut out, h.eccentricity.as_str());
    push_tok(&mut out, h.sigma_inel_nn.as_str());
    proof {
        assert(out@ =~= spec_heavy_line(h@));
    }
    out
}

/// Render the `V` line of a vertex (without its newline).
fn vertex_line_string(v: &Vertex) -> (r: String)
    requires
        v@.particles_in.len() + v@.particles_out.len() <= usize::MAX,
    ensures
        r@ == spec_vertex_line(v@),
{
    proof {
        reveal_strlit("V");
        assert("V"@ =~= seq!['V']);
    }
    let mut out = String::from_str("V");
    push_i32_tok(&mut out, v.barcode);
    push_i32_tok(&mut out, v.status);
    push_tok(&mut out, v.x.as_str());
    push_tok(&mut out, v.y.as_str());
    push_tok(&mut out, v.z.as_str());
    push_tok(&mut out, v.t.as_str());
    push_usize_tok(&mut out, 0);
    let total = v.particles_in.len() + v.particles_out.len();
    proof {
        assert(v.particles_in.len() == v@.particles_in.len());
        assert(v.particles_out.len() == v@.particles_out.len());
    }
    push_usize_tok(&mut out, total);
    push_usize_tok(&mut out, v.weights.len());
    push_float_list(&mut out, &v.weights);
    proof {
        assert(dec_digits(0) =~= zero_text());
        assert(out@ =~= spec_vertex_line(v@));
    }
    out
}

/// Render the `P` line of a particle (without its newline).
fn particle_line_string(p: &Particle) -> (r: String)
    ensures
        r@ == spec_particle_line(p@),
{
    proof {
        reveal_strlit("P");
        assert("P"@ =~= seq!['P']);
    }
    let mut out = String::from_str("P");
    push_usize_tok(&mut out, 0);
    push_i32_tok(&mut out, p.id);
    push_tok(&mut out, p.p.x.as_str());
    push_tok(&mut out, p.p.y.as_str());
    push_tok(&mut out, p.p.z.as_str());
    push_tok(&mut out, p.p.t.as_str());
    push_tok(&mut out, p.m.as_str());
    push_i32_tok(&mut out, p.status);
    push_tok(&mut out, p.theta.as_str());
    push_tok(&mut out, p.phi.as_str());
    push_i32_tok(&mut out, p.end_vtx);
    let nf = p.flows.len();
    push_usize_tok(&mut out, nf);
    let ghost fsv = p@.flows;
    let ghost base = out@;
    let mut m: usize = 0;
    proof {
        assert(base + cat_flows(fsv.take(0)) =~= base);
    }
    loop
        invariant
            m <= nf == fsv.len(),
            fsv == p@.flows,
            nf == p@.flows.len(),
            out@ == base + cat_flows(fsv.take(m as int)),
        ensures
            m == nf,
            out@ == base + cat_flows(fsv.take(m as int)),
        decreases nf - m,
    {
        if m == nf {
            break ;
        }
        let pair = p.flows.pair_at(m);
        push_i32_tok(&mut out, pair.0);
        push_i32_tok(&mut out, pair.1);
        proof {
            assert(fsv.take(m + 1).drop_last() =~= fsv.take(m as int));
            assert(fsv.take(m + 1).last() == fsv[m as int]);
            assert(out@ =~= base + cat_flows(fsv.take(m + 1)));
        }
        m = m + 1;
    }
    proof {
        assert(fsv.take(nf as int) =~= fsv);
        assert(dec_digits(0) =~= zero_text());
        assert(out@ =~= spec_particle_line(p@));
    }
    out
}

fn push_vertex_block(lines: &mut Vec<String>, v: &Vertex)
    requires
        v@.particles_in.len() + v@.particles_out.len() <= usize::MAX,
    ensures
        final(lines).deep_view() == old(lines).deep_view() + spec_vertex_block(v@),
{
    let vl = vertex_line_string(v);
    lines.push(vl);
    let ghost base = lines.deep_view();
    proof {
        assert(base =~= old(lines).deep_view() + seq![spec_vertex_line(v@)]);
    }
    let ghost pin = v@.particles_in.map_values(|p: ParticleModel| spec_particle_line(p));
    let ni = v.particles_in.len();
    let mut m: usize = 0;
    proof {
        assert(lines.deep_view() =~= base + pin.take(0));
    }
    loop
        invariant
            m <= ni == pin.len(),
            pin == v@.particles_in.map_values(|p: ParticleModel| spec_particle_line(p)),
            ni == v.particles_in.len(),
            lines.deep_view() == base + pin.take(m as int),
        ensures
            m == ni,
            lines.deep_view() == base + pin.take(m as int),
        decreases ni - m,
    {
        if m == ni {
            break ;
        }
        let pl = particle_line_string(&v.particles_in[m]);
        let ghost pre_dv = lines.deep_view();
        let ghost plv = pl@;
        lines.push(pl);
        proof {
            assert(lines.deep_view() =~= pre_dv.push(plv));
            assert(pin.take(m + 1).drop_last() =~= pin.take(m as int));
            assert(pin.take(m + 1).last() == pin[m as int]);
            assert(pin[m as int] == spec_particle_line(v@.particles_in[m as int]));
            assert(lines.deep_view() =~= base + pin.take(m + 1));
        }
        m = m + 1;
    }
    let ghost base2 = lines.deep_view();
    let ghost pout = v@.particles_out.map_values(|p: ParticleModel| spec_particle_line(p));
    let no = v.particles_out.len();
    let mut k: usize = 0;
    proof {
        assert(pin.take(ni as int) =~= pin);
        assert(base2 =~= base + pin);
        assert(lines.deep_view() =~= base2 + pout.take(0));
    }
    loop
        invariant
            k <= no == pout.len(),
            pout == v@.particles_out.map_values(|p: ParticleModel| spec_particle_line(p)),
            no == v.particles_out.len(),
            lines.deep_view() == base2 + pout.take(k as int),
        ensures
            k == no,
            lines.deep_view() == base2 + pout.take(k as int),
        decreases no - k,
    {
        if k == no {
            break ;
        }
        let pl = particle_line_string(&v.particles_out[k]);
        let ghost pre_dv = lines.deep_view();
        let ghost plv = pl@;
        lines.push(pl);
        proof {
            assert(lines.deep_view() =~= pre_dv.push(plv));
            assert(pout.take(k + 1).drop_last() =~= pout.take(k as int));
            assert(pout.take(k + 1).last() == pout[k as int]);
            assert(pout[k as int] == spec_particle_line(v@.particles_out[k as int]));
            assert(lines.deep_view() =~= base2 + pout.take(k + 1));
        }
        k = k + 1;
    }
    proof {
        assert(pout.take(no as int) =~= pout);
        assert(lines.deep_view() =~= old(lines).deep_view() + spec_vertex_block(v@));
    }
}

/// Render all record lines of one event, in the exact interchange order.
pub fn event_lines(e: &Event) -> (r: Vec<String>)
    requires
        counts_ok(e@),
    ensures
        r.deep_view() == spec_event_lines(e@),
{
    let mut lines: Vec<String> = Vec::new();
    lines.push(event_line_string(e));
    if e.weight_names.len() > 0 {
        let nl = names_line_string(&e.weight_names);
        lines.push(nl);
    }
    lines.push(units_line_string(e));
    lines.push(xs_line_string(e));
    lines.push(pdf_line_string(e));
    match &e.heavy_ion_info {
        Some(h) => {
            let hl = heavy_line_string(h);
            lines.push(hl);
        },
        None => {},
    }
    let ghost head = lines.deep_view();
    proof {
        assert(head =~= spec_event_lines(e@).take(head.len() as int)) by {
            assert(head =~~= seq![spec_event_line(e@)] + (if e@.weight_names.len() > 0 {
                seq![spec_names_line(e@.weight_names)]
            } else {
                Seq::<Seq<char>>::empty()
            }) + seq![spec_units_line(e@), spec_xs_line(e@.xs), spec_pdf_line(e@.pdf_info)] + (
            match e@.heavy_ion_info {
                Some(h) => seq![spec_heavy_line(h)],
                None => Seq::<Seq<char>>::empty(),
            }));
            assert(spec_event_lines(e@) =~= head + spec_vertex_blocks(e@.vertices));
        };
    }
    let nv = e.vertices.len();
    let mut m: usize = 0;
    proof {
        assert(lines.deep_view() =~= head + spec_vertex_blocks(e@.vertices.take(0)));
    }
    loop
        invariant
            m <= nv == e@.vertices.len(),
            nv == e.vertices.len(),
            counts_ok(e@),
            lines.deep_view() == head + spec_vertex_blocks(e@.vertices.take(m as int)),
        ensures
            m == nv,
            lines.deep_view() == head + spec_vertex_blocks(e@.vertices.take(m as int)),
        decreases nv - m,
    {
        if m == nv {
            break ;
        }
        proof {
            assert(e.vertices[m as int]@ == e@.vertices[m as int]);
        }
        push_vertex_block(&mut lines, &e.vertices[m]);
        proof {
            let vs = e@.vertices;
            assert(vs.take(m + 1).drop_last() =~= vs.take(m as int));
            assert(vs.take(m + 1).last() == vs[m as int]);
            assert(lines.deep_view() =~= head + spec_vertex_blocks(vs.take(m + 1)));
        }
        m = m + 1;
    }
    proof {
        assert(e@.vertices.take(nv as int) =~= e@.vertices);
        assert(lines.deep_view() =~= spec_event_lines(e@));
    }
    lines
}

// ---------------------------------------------------------------------------
// the Writer
// ---------------------------------------------------------------------------

/// The default two-line banner written before the first event.
pub open spec fn spec_default_header() -> Seq<char> {
    "HepMC::Version 2.06.09\nHepMC::IO_GenEvent-START_EVENT_LISTING\n"@
}

/// The one-line footer that closes an event listing.
pub open spec fn spec_footer() -> Seq<char> {
    "HepMC::IO_GenEvent-END_EVENT_LISTING\n"@
}

/// Writer for the HepMC2 format: renders a header on construction, events on
/// demand, and exactly one footer at the end; everything rendered accumulates
/// in an owned text buffer that an embedding moves to its byte stream.
#[derive(Debug, PartialEq, Eq)]
pub struct Writer {
    out: String,
    finished: bool,
}

#[verifier::ext_equal]
pub ghost struct WriterModel {
    /// Everything rendered so far.
    pub out: Seq<char>,
    /// Whether the footer has been rendered.
    pub finished: bool,
}

impl View for Writer {
    type V = WriterModel;

    closed spec fn view(&self) -> WriterModel {
        WriterModel { out: self.out@, finished: self.finished }
    }
}

impl Writer {
    /// Construct a new `Writer` over a stream of already-rendered text,
    /// rendering the default header.
    pub fn new(stream: String) -> (w: Writer)
        ensures
            w@.out == stream@ + spec_default_header(),
            !w@.finished,
    {
        Writer::with_header(stream, "HepMC::Version 2.06.09\nHepMC::IO_GenEvent-START_EVENT_LISTING\n")
    }

    /// Construct a new `Writer`, rendering a caller-supplied header.
    pub fn with_header(stream: String, header: &str) -> (w: Writer)
        ensures
            w@.out == stream@ + header@,
            !w@.finished,
    {
        let mut w = Writer { out: stream, finished: false };
        w.write_header(header);
        w
    }

    /// Construct a new `Writer` with the default header.
    pub fn try_from(stream: String) -> (w: Writer)
        ensures
            w@.out == stream@ + spec_default_header(),
            !w@.finished,
    {
        Writer::new(stream)
    }

    /// Render a header verbatim.
    pub fn write_header(&mut self, header: &str)
        ensures
            final(self)@.out == old(self)@.out + header@,
            final(self)@.finished == old(self)@.finished,
    {
        self.out.append(header);
    }

    /// Retrieve everything rendered so far, consuming the `Writer` without
    /// rendering the footer.
    pub fn into_inner(self) -> (r: String)
        ensures
            r@ == self@.out,
    {
        self.out
    }

    /// Everything rendered so far.
    pub fn rendered(&self) -> (r: &str)
        ensures
            r@ == self@.out,
    {
        self.out.as_str()
    }

    /// Whether the footer has been rendered.
    pub fn is_finished(&self) -> (r: bool)
        ensures
            r == self@.finished,
    {
        self.finished
    }

    /// Render an event: its record lines in order, each ending its line.
    pub fn write(&mut self, event: &Event)
        requires
            counts_ok(event@),
        ensures
            final(self)@.out == old(self)@.out + lines_text(spec_event_lines(event@)),
            final(self)@.finished == old(self)@.finished,
    {
        let ls = event_lines(event);
        let ghost lsv = ls.deep_view();
        let n = ls.len();
        let mut m: usize = 0;
        proof {
            reveal_strlit("\n");
            assert("\n"@ =~= seq!['\n']);
            assert(self.out@ + lines_text(lsv.take(0)) =~= self.out@);
        }
        loop
            invariant
                m <= n == lsv.len(),
                lsv == ls.deep_view(),
                n == ls.len(),
                self@.out == old(self)@.out + lines_text(lsv.take(m as int)),
                self@.finished == old(self)@.finished,
            ensures
                m == n,
                self@.out == old(self)@.out + lines_text(lsv.take(m as int)),
                self@.finished == old(self)@.finished,
            decreases n - m,
        {
            if m == n {
                break ;
            }
            proof {
                reveal_strlit("\n");
                assert("\n"@ =~= seq!['\n']);
            }
            self.out.append(ls[m].as_str());
            self.out.append("\n");
            proof {
                assert(lsv.take(m + 1).drop_last() =~= lsv.take(m as int));
                assert(lsv.take(m + 1).last() == lsv[m as int]);
                assert(self@.out =~= old(self)@.out + lines_text(lsv.take(m + 1)));
            }
            m = m + 1;
        }
        proof {
            assert(lsv.take(n as int) =~= lsv);
        }
    }

    /// Render the `N` line for a list of weight names.
    pub fn write_weight_names_line(&mut self, names: &Vec<String>)
        ensures
            final(self)@.out == old(self)@.out + spec_names_line(names.deep_view()) + seq!['\n'],
            final(self)@.finished == old(self)@.finished,
    {
        let nl = names_line_string(names);
        self.out.append(nl.as_str());
        proof {
            reveal_strlit("\n");
            assert("\n"@ =~= seq!['\n']);
        }
        self.out.append("\n");
    }

    /// Render the footer and mark this `Writer` finished.
    pub fn ref_finish(&mut self)
        ensures
            final(self)@.out == old(self)@.out + spec_footer(),
            final(self)@.finished,
    {
        self.out.append("HepMC::IO_GenEvent-END_EVENT_LISTING\n");
        self.finished = true;
    }

    /// Finish writing, consuming the `Writer`: renders the mandatory footer
    /// and hands back the completed text.
    pub fn finish(self) -> (r: String)
        ensures
            r@ == self@.out + spec_footer(),
    {
        let mut w = self;
        w.ref_finish();
        w.out
    }
}

/// Render a whole event listing: the default header, each event in turn, and
/// the footer, exactly once each.
pub fn write_events_to_string(events: &Vec<Event>) -> (r: String)
    requires
        forall|m: int| 0 <= m < events@.len() ==> counts_ok(#[trigger] events@[m]@),
    ensures
        r@ == spec_default_header() + spec_events_text(events@.map_values(|e: Event| e@)) + spec_footer(),
{
    let mut w = Writer::new(String::new());
    let ghost evs = events@.map_values(|e: Event| e@);
    let n = events.len();
    let mut m: usize = 0;
    proof {
        assert(Seq::<char>::empty() + spec_default_header() =~= spec_default_header());
        assert(spec_default_header() + spec_events_text(evs.take(0)) =~= spec_default_header());
    }
    loop
        invariant
            m <= n == evs.len(),
            evs == events@.map_values(|e: Event| e@),
            n == events.len(),
            forall|q: int| 0 <= q < events@.len() ==> counts_ok(#[trigger] events@[q]@),
            w@.out == spec_default_header() + spec_events_text(evs.take(m as int)),
            !w@.finished,
        ensures
            m == n,
            w@.out == spec_default_header() + spec_events_text(evs.take(m as int)),
        decreases n - m,
    {
        if m == n {
            break ;
        }
        proof {
            assert(evs[m as int] == events@[m as int]@);
        }
        w.write(&events[m]);
        proof {
            assert(evs.take(m + 1).drop_last() =~= evs.take(m as int));
            assert(evs.take(m + 1).last() == evs[m as int]);
            assert(w@.out =~= spec_default_header() + spec_events_text(evs.take(m + 1)));
        }
        m = m + 1;
    }
    proof {
        assert(evs.take(n as int) =~= evs);
    }
    w.finish()
}

/// The texts of a sequence of events, one after the other.
pub open spec fn spec_events_text(evs: Seq<EventModel>) -> Seq<char>
    decreases evs.len(),
{
    if evs.len() == 0 {
        Seq::empty()
    } else {
        spec_events_text(evs.drop_last()) + lines_text(spec_event_lines(evs.last()))
    }
}

} // verus!
