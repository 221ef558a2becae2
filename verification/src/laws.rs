//! The library's laws: properties of the codec that hold for every event and
//! every input, stated over the reader's and writer's specifications.

use vstd::prelude::*;

use crate::event::{EventModel, ParticleModel, VertexModel};
use crate::reader::{
    spec_blank, spec_link_particle, spec_parse_body, spec_parse_particle_line, ParseErrorModel,
};
use crate::writer::{
    spec_event_lines, spec_heavy_line, spec_names_line, spec_particle_line, spec_pdf_line,
    spec_units_line, spec_vertex_block, spec_vertex_blocks, spec_vertex_line, spec_xs_line,
    spec_event_line,
};

verus! {

/// Particle classification law: a particle parsed while some vertex exists
/// always joins the last vertex, its incoming list exactly when the
/// particle's end-vertex barcode equals that vertex's barcode, its outgoing
/// list otherwise; no other vertex changes.
pub proof fn lemma_particle_classification(e: EventModel, p: ParticleModel)
    requires
        e.vertices.len() > 0,
    ensures
        spec_link_particle(e, p) is Ok,
        ({
            let n = e.vertices.len() as int;
            let v = e.vertices[n - 1];
            let e2 = spec_link_particle(e, p)->Ok_0;
            &&& e2.vertices.len() == n
            &&& (forall|m: int| 0 <= m < n - 1 ==> e2.vertices[m] == e.vertices[m])
            &&& (p.end_vtx == v.barcode ==> e2.vertices[n - 1] == (VertexModel {
                particles_in: v.particles_in.push(p),
                ..v
            }))
            &&& (p.end_vtx != v.barcode ==> e2.vertices[n - 1] == (VertexModel {
                particles_out: v.particles_out.push(p),
                ..v
            }))
        }),
{
}

/// Structural failure law: while no vertex exists, a `P` line never yields an
/// event; it fails, and whenever its grammar is sound the failure is the
/// structural "no vertex" error.
pub proof fn lemma_structural_failure(l: Seq<char>, e: EventModel)
    requires
        e.vertices.len() == 0,
    ensures
        spec_parse_particle_line(l, e) is Err,
        forall|p: ParticleModel|
            spec_link_particle(e, p) == Err::<EventModel, ParseErrorModel>(
                ParseErrorModel::NoVertex,
            ),
{
}

/// Unknown prefix law: a body line that is not blank and does not begin with
/// one of the record characters ends the parse with the "bad prefix" error,
/// leaving that line as the offending line.
pub proof fn lemma_unknown_prefix(lines: Seq<Seq<char>>, pos: int, e: EventModel)
    requires
        0 <= pos < lines.len(),
        lines[pos].len() > 0,
        !spec_blank(lines[pos]),
        lines[pos][0] != 'E',
        lines[pos][0] != 'V',
        lines[pos][0] != 'P',
        lines[pos][0] != 'U',
        lines[pos][0] != 'F',
        lines[pos][0] != 'H',
        lines[pos][0] != 'N',
        lines[pos][0] != 'C',
    ensures
        spec_parse_body(lines, pos, e) == (
            Err::<EventModel, ParseErrorModel>(ParseErrorModel::BadPrefix),
            pos + 1,
            lines[pos],
        ),
{
}

/// Every line of a vertex block begins with `V` or `P`.
pub proof fn lemma_vertex_blocks_prefixes(vs: Seq<VertexModel>)
    ensures
        forall|i: int|
            0 <= i < spec_vertex_blocks(vs).len() ==> (#[trigger] spec_vertex_blocks(vs)[i]).len()
                > 0 && (spec_vertex_blocks(vs)[i][0] == 'V' || spec_vertex_blocks(vs)[i][0] == 'P'),
    decreases vs.len(),
{
    if vs.len() > 0 {
        lemma_vertex_blocks_prefixes(vs.drop_last());
        let v = vs.last();
        let block = spec_vertex_block(v);
        let pre = spec_vertex_blocks(vs.drop_last());
        assert(spec_vertex_blocks(vs) == pre + block);
        assert forall|i: int| 0 <= i < block.len() implies (#[trigger] block[i]).len() > 0 && (
        block[i][0] == 'V' || block[i][0] == 'P') by {
            if i == 0 {
                assert(block[i] == spec_vertex_line(v));
                assert(block[i][0] == 'V');
            } else if i < 1 + v.particles_in.len() {
                assert(block[i] == v.particles_in.map_values(
                    |p: ParticleModel| spec_particle_line(p),
                )[i - 1]);
                assert(block[i] == spec_particle_line(v.particles_in[i - 1]));
                assert(block[i][0] == 'P');
            } else {
                assert(block[i] == v.particles_out.map_values(
                    |p: ParticleModel| spec_particle_line(p),
                )[i - 1 - v.particles_in.len()]);
                assert(block[i] == spec_particle_line(
                    v.particles_out[i - 1 - v.particles_in.len()],
                ));
                assert(block[i][0] == 'P');
            }
        }
        assert forall|i: int| 0 <= i < spec_vertex_blocks(vs).len() implies (#[trigger]
        spec_vertex_blocks(vs)[i]).len() > 0 && (spec_vertex_blocks(vs)[i][0] == 'V'
            || spec_vertex_blocks(vs)[i][0] == 'P') by {
            if i < pre.len() {
                assert(spec_vertex_blocks(vs)[i] == pre[i]);
            } else {
                assert(spec_vertex_blocks(vs)[i] == block[i - pre.len()]);
            }
        }
    }
}

/// Weight-name omission law: an event with an empty name list is written
/// without any `N` line; one with at least one name always carries the `N`
/// line, directly after the `E` line, whether or not unnamed weights coexist.
pub proof fn lemma_weight_name_omission(e: EventModel)
    ensures
        e.weight_names.len() == 0 ==> forall|i: int|
            0 <= i < spec_event_lines(e).len() ==> (#[trigger] spec_event_lines(e)[i]).len() > 0
                && spec_event_lines(e)[i][0] != 'N',
        e.weight_names.len() > 0 ==> spec_event_lines(e)[1] == spec_names_line(e.weight_names)
            && spec_event_lines(e)[1][0] == 'N',
{
    let ls = spec_event_lines(e);
    lemma_vertex_blocks_prefixes(e.vertices);
    if e.weight_names.len() == 0 {
        let head: int = match e.heavy_ion_info {
            Some(_) => 5,
            None => 4,
        };
        assert forall|i: int| 0 <= i < ls.len() implies (#[trigger] ls[i]).len() > 0 && ls[i][0]
            != 'N' by {
            if i == 0 {
                assert(ls[i] == spec_event_line(e));
                assert(ls[i][0] == 'E');
            } else if i == 1 {
                assert(ls[i] == spec_units_line(e));
                assert(ls[i][0] == 'U');
            } else if i == 2 {
                assert(ls[i] == spec_xs_line(e.xs));
                assert(ls[i][0] == 'C');
            } else if i == 3 {
                assert(ls[i] == spec_pdf_line(e.pdf_info));
                assert(ls[i][0] == 'F');
            } else if i == 4 && e.heavy_ion_info is Some {
                assert(ls[i] == spec_heavy_line(e.heavy_ion_info->0));
                assert(ls[i][0] == 'H');
            } else {
                assert(ls[i] == spec_vertex_blocks(e.vertices)[i - head]);
            }
        }
    } else {
        assert(ls[1] == spec_names_line(e.weight_names));
    }
}

} // verus!
