//! The event data model: events, vertices, particles and their auxiliary
//! records, together with their ghost models.
//!
//! Fields that the wire format stores as decimal floating-point text (`scale`,
//! positions, momenta, weights, ...) are carried verbatim as their token text:
//! a well-formed field holds one whitespace-free floating-point token (see
//! [`crate::tokens::valid_float_token`]).  Reading and re-writing an event
//! therefore reproduces every such field byte for byte; turning the text into
//! machine floating-point values is the embedding application's concern.

use vstd::prelude::*;
use vstd::string::*;

use crate::tokens::{
    digits_end, is_digit_char, is_ws_char, sign_skip, token_clean, valid_float_token,
    valid_numeric_float,
};

verus! {

// ---------------------------------------------------------------------------
// units
// ---------------------------------------------------------------------------

/// Energy units of an event.
#[derive(Debug, PartialEq, Eq, Structural, Hash, Copy, Clone)]
pub enum EnergyUnit {
    MEV,
    GEV,
}

/// Length units of an event.
#[derive(Debug, PartialEq, Eq, Structural, Hash, Copy, Clone)]
pub enum LengthUnit {
    MM,
    CM,
}

impl EnergyUnit {
    /// The token this unit is written as.
    pub open spec fn spec_token(self) -> Seq<char> {
        match self {
            EnergyUnit::MEV => seq!['M', 'E', 'V'],
            EnergyUnit::GEV => seq!['G', 'E', 'V'],
        }
    }

    pub fn token(self) -> (r: &'static str)
        ensures
            r@ == self.spec_token(),
    {
        proof {
            reveal_strlit("MEV");
            reveal_strlit("GEV");
            assert("MEV"@ =~= seq!['M', 'E', 'V']);
            assert("GEV"@ =~= seq!['G', 'E', 'V']);
        }
        match self {
            EnergyUnit::MEV => "MEV",
            EnergyUnit::GEV => "GEV",
        }
    }
}

impl LengthUnit {
    /// The token this unit is written as.
    pub open spec fn spec_token(self) -> Seq<char> {
        match self {
            LengthUnit::MM => seq!['M', 'M'],
            LengthUnit::CM => seq!['C', 'M'],
        }
    }

    pub fn token(self) -> (r: &'static str)
        ensures
            r@ == self.spec_token(),
    {
        proof {
            reveal_strlit("MM");
            reveal_strlit("CM");
            assert("MM"@ =~= seq!['M', 'M']);
            assert("CM"@ =~= seq!['C', 'M']);
        }
        match self {
            LengthUnit::MM => "MM",
            LengthUnit::CM => "CM",
        }
    }
}

/// The energy unit a token denotes, if any.
pub open spec fn spec_energy_unit_of(s: Seq<char>) -> Option<EnergyUnit> {
    if s == EnergyUnit::MEV.spec_token() {
        Some(EnergyUnit::MEV)
    } else if s == EnergyUnit::GEV.spec_token() {
        Some(EnergyUnit::GEV)
    } else {
        None
    }
}

/// The length unit a token denotes, if any.
pub open spec fn spec_length_unit_of(s: Seq<char>) -> Option<LengthUnit> {
    if s == LengthUnit::MM.spec_token() {
        Some(LengthUnit::MM)
    } else if s == LengthUnit::CM.spec_token() {
        Some(LengthUnit::CM)
    } else {
        None
    }
}

impl EnergyUnit {
    /// Recognize a unit token; any other token is rejected.
    pub fn from_token(t: &str) -> (r: Option<EnergyUnit>)
        ensures
            r == spec_energy_unit_of(t@),
    {
        let len = t.unicode_len();
        if len == 3 {
            let c0 = t.get_char(0);
            let c1 = t.get_char(1);
            let c2 = t.get_char(2);
            if c0 == 'M' && c1 == 'E' && c2 == 'V' {
                proof {
                    assert(t@ =~= EnergyUnit::MEV.spec_token());
                }
                Some(EnergyUnit::MEV)
            } else if c0 == 'G' && c1 == 'E' && c2 == 'V' {
                proof {
                    assert(t@ =~= EnergyUnit::GEV.spec_token());
                }
                Some(EnergyUnit::GEV)
            } else {
                proof {
                    assert(t@ != EnergyUnit::MEV.spec_token());
                    assert(t@ != EnergyUnit::GEV.spec_token());
                }
                None
            }
        } else {
            None
        }
    }
}

impl LengthUnit {
    /// Recognize a unit token; any other token is rejected.
    pub fn from_token(t: &str) -> (r: Option<LengthUnit>)
        ensures
            r == spec_length_unit_of(t@),
    {
        let len = t.unicode_len();
        if len == 2 {
            let c0 = t.get_char(0);
            let c1 = t.get_char(1);
            if c0 == 'M' && c1 == 'M' {
                proof {
                    assert(t@ =~= LengthUnit::MM.spec_token());
                }
                Some(LengthUnit::MM)
            } else if c0 == 'C' && c1 == 'M' {
                proof {
                    assert(t@ =~= LengthUnit::CM.spec_token());
                }
                Some(LengthUnit::CM)
            } else {
                proof {
                    assert(t@ != LengthUnit::MM.spec_token());
                    assert(t@ != LengthUnit::CM.spec_token());
                }
                None
            }
        } else {
            None
        }
    }
}

impl Default for EnergyUnit {
    /// Events default to GeV.
    fn default() -> (r: Self)
        ensures
            r == EnergyUnit::GEV,
    {
        EnergyUnit::GEV
    }
}

impl Default for LengthUnit {
    /// Events default to centimetres.
    fn default() -> (r: Self)
        ensures
            r == LengthUnit::CM,
    {
        LengthUnit::CM
    }
}

// ---------------------------------------------------------------------------
// numeric text fields
// ---------------------------------------------------------------------------

/// A well-formed numeric text field: one whitespace-free floating-point token.
pub open spec fn wf_float(s: Seq<char>) -> bool {
    valid_float_token(s) && token_clean(s)
}

/// A weight name can be quoted and re-read only if it holds no quote.
pub open spec fn name_ok(s: Seq<char>) -> bool {
    forall|m: int| 0 <= m < s.len() ==> #[trigger] s[m] != '"'
}

/// The text of a zero field.
pub open spec fn zero_text() -> Seq<char> {
    seq!['0']
}

/// A fresh zero field.
pub fn zero_string() -> (r: String)
    ensures
        r@ == zero_text(),
{
    proof {
        reveal_strlit("0");
        assert("0"@ =~= seq!['0']);
    }
    String::from_str("0")
}

// ---------------------------------------------------------------------------
// flow maps
// ---------------------------------------------------------------------------

/// An integer-to-integer mapping with unique keys, kept in ascending key
/// order; used for the colour-flow codes of a particle.
#[derive(Debug, PartialEq, Eq, Clone)]
pub struct FlowMap {
    entries: Vec<(i32, i32)>,
}

/// Ghost model of a flow map: its (key, value) pairs in storage order.
#[verifier::ext_equal]
pub ghost struct FlowMapModel {
    pub pairs: Seq<(int, int)>,
}

impl View for FlowMap {
    type V = FlowMapModel;

    closed spec fn view(&self) -> FlowMapModel {
        FlowMapModel { pairs: self.entries@.map_values(|p: (i32, i32)| (p.0 as int, p.1 as int)) }
    }
}

/// Keys strictly ascend, so each key occurs once.
pub open spec fn flow_wf(s: Seq<(int, int)>) -> bool {
    forall|a: int, b: int| 0 <= a < b < s.len() ==> (#[trigger] s[a]).0 < (#[trigger] s[b]).0
}

/// First position in `s` at or after `i` whose key is at least `k`.
pub open spec fn first_key_ge(s: Seq<(int, int)>, k: int, i: int) -> int
    decreases s.len() - i when 0 <= i <= s.len()
{
    if i < s.len() && s[i].0 < k {
        first_key_ge(s, k, i + 1)
    } else {
        i
    }
}

/// What inserting a pair does to the model: replace the pair with the same
/// key, or splice the new pair in at its ordered position.
pub open spec fn spec_flow_insert(s: Seq<(int, int)>, k: int, v: int) -> Seq<(int, int)> {
    let idx = first_key_ge(s, k, 0);
    if idx < s.len() && s[idx].0 == k {
        s.update(idx, (k, v))
    } else {
        s.insert(idx, (k, v))
    }
}

pub proof fn lemma_first_key_ge(s: Seq<(int, int)>, k: int, i: int)
    requires
        0 <= i <= s.len(),
    ensures
        i <= first_key_ge(s, k, i) <= s.len(),
        first_key_ge(s, k, i) < s.len() ==> s[first_key_ge(s, k, i)].0 >= k,
        forall|m: int| i <= m < first_key_ge(s, k, i) ==> (#[trigger] s[m]).0 < k,
    decreases s.len() - i,
{
    if i < s.len() && s[i].0 < k {
        lemma_first_key_ge(s, k, i + 1);
    }
}

/// Inserting keeps the keys strictly ascending.
pub proof fn lemma_flow_insert_wf(s: Seq<(int, int)>, k: int, v: int)
    requires
        flow_wf(s),
    ensures
        flow_wf(spec_flow_insert(s, k, v)),
{
    lemma_first_key_ge(s, k, 0);
}

impl FlowMap {
    /// An empty flow map.
    pub fn new() -> (r: FlowMap)
        ensures
            r@.pairs == Seq::<(int, int)>::empty(),
            flow_wf(r@.pairs),
    {
        let r = FlowMap { entries: Vec::new() };
        proof {
            assert(r@.pairs =~= Seq::<(int, int)>::empty());
        }
        r
    }

    /// Number of stored pairs.
    pub fn len(&self) -> (r: usize)
        ensures
            r == self@.pairs.len(),
    {
        self.entries.len()
    }

    /// The pair at a storage position (ascending key order).
    pub fn pair_at(&self, i: usize) -> (r: (i32, i32))
        requires
            i < self@.pairs.len(),
        ensures
            (r.0 as int, r.1 as int) == self@.pairs[i as int],
    {
        self.entries[i]
    }

    /// Insert a pair, replacing the value of an already-present key.
    pub fn insert(&mut self, k: i32, v: i32)
        requires
            flow_wf(old(self)@.pairs),
        ensures
            final(self)@.pairs == spec_flow_insert(old(self)@.pairs, k as int, v as int),
            flow_wf(final(self)@.pairs),
    {
        let ghost s = self@.pairs;
        proof {
            lemma_first_key_ge(s, k as int, 0);
            lemma_flow_insert_wf(s, k as int, v as int);
        }
        let n = self.entries.len();
        let mut idx: usize = 0;
        loop
            invariant
                idx <= n == self.entries.len(),
                s == self@.pairs,
                first_key_ge(s, k as int, 0) == first_key_ge(s, k as int, idx as int),
            ensures
                idx <= n == self.entries.len(),
                s == self@.pairs,
                idx as int == first_key_ge(s, k as int, 0),
            decreases n - idx,
        {
            if idx == n {
                break ;
            }
            if self.entries[idx].0 < k {
                idx = idx + 1;
            } else {
                break ;
            }
        }
        if idx < n && self.entries[idx].0 == k {
            self.entries.remove(idx);
            self.entries.insert(idx, (k, v));
            proof {
                assert(self@.pairs =~= spec_flow_insert(s, k as int, v as int));
            }
        } else {
            self.entries.insert(idx, (k, v));
            proof {
                assert(self@.pairs =~= spec_flow_insert(s, k as int, v as int));
            }
        }
    }
}

impl Default for FlowMap {
    /// An empty flow map.
    fn default() -> (r: Self)
        ensures
            r@.pairs == Seq::<(int, int)>::empty(),
            flow_wf(r@.pairs),
    {
        FlowMap::new()
    }
}

// ---------------------------------------------------------------------------
// records
// ---------------------------------------------------------------------------

/// Simple Lorentz vector with components (t, x, y, z), each carried as its
/// decimal text.
#[derive(Debug, PartialEq, Eq, Clone)]
pub struct FourVector {
    pub t: String,
    pub x: String,
    pub y: String,
    pub z: String,
}

#[verifier::ext_equal]
pub ghost struct FourVectorModel {
    pub t: Seq<char>,
    pub x: Seq<char>,
    pub y: Seq<char>,
    pub z: Seq<char>,
}

impl View for FourVector {
    type V = FourVectorModel;

    open spec fn view(&self) -> FourVectorModel {
        FourVectorModel { t: self.t@, x: self.x@, y: self.y@, z: self.z@ }
    }
}

pub open spec fn wf_four_vector(v: FourVectorModel) -> bool {
    wf_float(v.t) && wf_float(v.x) && wf_float(v.y) && wf_float(v.z)
}

impl FourVector {
    /// The zero vector.
    pub fn new() -> (r: Self)
        ensures
            r@ == (FourVectorModel {
                t: zero_text(),
                x: zero_text(),
                y: zero_text(),
                z: zero_text(),
            }),
            wf_four_vector(r@),
    {
        proof {
            lemma_zero_text_wf();
        }
        FourVector { t: zero_string(), x: zero_string(), y: zero_string(), z: zero_string() }
    }

    /// Build from components in (t, x, y, z) order.
    pub fn txyz(t: String, x: String, y: String, z: String) -> (r: Self)
        ensures
            r@ == (FourVectorModel { t: t@, x: x@, y: y@, z: z@ }),
    {
        FourVector { t, x, y, z }
    }
}

impl Default for FourVector {
    /// The zero vector.
    fn default() -> (r: Self)
        ensures
            r@ == (FourVectorModel {
                t: zero_text(),
                x: zero_text(),
                y: zero_text(),
                z: zero_text(),
            }),
    {
        FourVector::new()
    }
}

/// The zero field is itself a well-formed floating-point token.
pub proof fn lemma_zero_text_wf()
    ensures
        wf_float(zero_text()),
{
    let s = zero_text();
    assert(is_digit_char(s[0]));
    assert(digits_end(s, 0) == digits_end(s, 1));
    assert(digits_end(s, 1) == 1);
    assert(sign_skip(s) == 0);
    assert(s.subrange(0, 1) =~= s);
    assert(valid_numeric_float(s));
    assert(!is_ws_char(s[0]));
}

/// Cross section with its uncertainty.
#[derive(Debug, PartialEq, Eq, Clone)]
pub struct CrossSection {
    pub cross_section: String,
    pub cross_section_error: String,
}

#[verifier::ext_equal]
pub ghost struct CrossSectionModel {
    pub cross_section: Seq<char>,
    pub cross_section_error: Seq<char>,
}

impl View for CrossSection {
    type V = CrossSectionModel;

    open spec fn view(&self) -> CrossSectionModel {
        CrossSectionModel {
            cross_section: self.cross_section@,
            cross_section_error: self.cross_section_error@,
        }
    }
}

pub open spec fn wf_cross_section(x: CrossSectionModel) -> bool {
    wf_float(x.cross_section) && wf_float(x.cross_section_error)
}

impl Default for CrossSection {
    /// A zero cross section with zero uncertainty.
    fn default() -> (r: Self)
        ensures
            r@ == (CrossSectionModel { cross_section: zero_text(), cross_section_error: zero_text() }),
    {
        CrossSection { cross_section: zero_string(), cross_section_error: zero_string() }
    }
}

/// Parton distribution function information.
#[derive(Debug, PartialEq, Eq, Clone)]
pub struct PdfInfo {
    pub parton_id0: i32,
    pub parton_id1: i32,
    pub x0: String,
    pub x1: String,
    pub scale: String,
    pub xf0: String,
    pub xf1: String,
    pub pdf_id0: i32,
    pub pdf_id1: i32,
}

#[verifier::ext_equal]
pub ghost struct PdfInfoModel {
    pub parton_id0: int,
    pub parton_id1: int,
    pub x0: Seq<char>,
    pub x1: Seq<char>,
    pub scale: Seq<char>,
    pub xf0: Seq<char>,
    pub xf1: Seq<char>,
    pub pdf_id0: int,
    pub pdf_id1: int,
}

impl View for PdfInfo {
    type V = PdfInfoModel;

    open spec fn view(&self) -> PdfInfoModel {
        PdfInfoModel {
            parton_id0: self.parton_id0 as int,
            parton_id1: self.parton_id1 as int,
            x0: self.x0@,
            x1: self.x1@,
            scale: self.scale@,
            xf0: self.xf0@,
            xf1: self.xf1@,
            pdf_id0: self.pdf_id0 as int,
            pdf_id1: self.pdf_id1 as int,
        }
    }
}

pub open spec fn wf_pdf_info(p: PdfInfoModel) -> bool {
    wf_float(p.x0) && wf_float(p.x1) && wf_float(p.scale) && wf_float(p.xf0) && wf_float(p.xf1)
}

impl Default for PdfInfo {
    /// All ids zero, all numeric fields zero.
    fn default() -> (r: Self)
        ensures
            r@ == (PdfInfoModel {
                parton_id0: 0,
                parton_id1: 0,
                x0: zero_text(),
                x1: zero_text(),
                scale: zero_text(),
                xf0: zero_text(),
                xf1: zero_text(),
                pdf_id0: 0,
                pdf_id1: 0,
            }),
    {
        PdfInfo {
            parton_id0: 0,
            parton_id1: 0,
            x0: zero_string(),
            x1: zero_string(),
            scale: zero_string(),
            xf0: zero_string(),
            xf1: zero_string(),
            pdf_id0: 0,
            pdf_id1: 0,
        }
    }
}

/// Geometry and participant counts of a nucleus-nucleus collision.
#[derive(Debug, PartialEq, Eq, Clone)]
pub struct HeavyIonInfo {
    pub ncoll_hard: i32,
    pub npart_proj: i32,
    pub npart_targ: i32,
    pub ncoll: i32,
    pub spectator_neutrons: i32,
    pub spectator_protons: i32,
    pub n_nwounded_collisions: i32,
    pub nwounded_n_collisions: i32,
    pub nwounded_nwounded_collisions: i32,
    pub impact_parameter: String,
    pub event_plane_angle: String,
    pub eccentricity: String,
    pub sigma_inel_nn: String,
}

#[verifier::ext_equal]
pub ghost struct HeavyIonInfoModel {
    pub ncoll_hard: int,
    pub npart_proj: int,
    pub npart_targ: int,
    pub ncoll: int,
    pub spectator_neutrons: int,
    pub spectator_protons: int,
    pub n_nwounded_collisions: int,
    pub nwounded_n_collisions: int,
    pub nwounded_nwounded_collisions: int,
    pub impact_parameter: Seq<char>,
    pub event_plane_angle: Seq<char>,
    pub eccentricity: Seq<char>,
    pub sigma_inel_nn: Seq<char>,
}

impl View for HeavyIonInfo {
    type V = HeavyIonInfoModel;

    open spec fn view(&self) -> HeavyIonInfoModel {
        HeavyIonInfoModel {
            ncoll_hard: self.ncoll_hard as int,
            npart_proj: self.npart_proj as int,
            npart_targ: self.npart_targ as int,
            ncoll: self.ncoll as int,
            spectator_neutrons: self.spectator_neutrons as int,
            spectator_protons: self.spectator_protons as int,
            n_nwounded_collisions: self.n_nwounded_collisions as int,
            nwounded_n_collisions: self.nwounded_n_collisions as int,
            nwounded_nwounded_collisions: self.nwounded_nwounded_collisions as int,
            impact_parameter: self.impact_parameter@,
            event_plane_angle: self.event_plane_angle@,
            eccentricity: self.eccentricity@,
            sigma_inel_nn: self.sigma_inel_nn@,
        }
    }
}

pub open spec fn wf_heavy_ion_info(h: HeavyIonInfoModel) -> bool {
    wf_float(h.impact_parameter) && wf_float(h.event_plane_angle) && wf_float(h.eccentricity)
        && wf_float(h.sigma_inel_nn)
}

/// Particle: a flat record that relates to its end vertex only through the
/// `end_vtx` barcode, never through a reference.
#[derive(Debug, PartialEq, Eq, Clone)]
pub struct Particle {
    pub id: i32,
    pub p: FourVector,
    pub m: String,
    pub status: i32,
    pub theta: String,
    pub phi: String,
    pub flows: FlowMap,
    pub end_vtx: i32,
}

#[verifier::ext_equal]
pub ghost struct ParticleModel {
    pub id: int,
    pub p: FourVectorModel,
    pub m: Seq<char>,
    pub status: int,
    pub theta: Seq<char>,
    pub phi: Seq<char>,
    pub flows: Seq<(int, int)>,
    pub end_vtx: int,
}

impl View for Particle {
    type V = ParticleModel;

    open spec fn view(&self) -> ParticleModel {
        ParticleModel {
            id: self.id as int,
            p: self.p@,
            m: self.m@,
            status: self.status as int,
            theta: self.theta@,
            phi: self.phi@,
            flows: self.flows@.pairs,
            end_vtx: self.end_vtx as int,
        }
    }
}

pub open spec fn wf_particle(p: ParticleModel) -> bool {
    &&& wf_four_vector(p.p)
    &&& wf_float(p.m)
    &&& wf_float(p.theta)
    &&& wf_float(p.phi)
    &&& flow_wf(p.flows)
}

/// Interaction vertex: owns its incoming and outgoing particles by value.
#[derive(Debug, PartialEq, Eq, Clone)]
pub struct Vertex {
    pub barcode: i32,
    pub status: i32,
    pub x: String,
    pub y: String,
    pub z: String,
    pub t: String,
    pub weights: Vec<String>,
    pub particles_in: Vec<Particle>,
    pub particles_out: Vec<Particle>,
}

#[verifier::ext_equal]
pub ghost struct VertexModel {
    pub barcode: int,
    pub status: int,
    pub x: Seq<char>,
    pub y: Seq<char>,
    pub z: Seq<char>,
    pub t: Seq<char>,
    pub weights: Seq<Seq<char>>,
    pub particles_in: Seq<ParticleModel>,
    pub particles_out: Seq<ParticleModel>,
}

impl View for Vertex {
    type V = VertexModel;

    open spec fn view(&self) -> VertexModel {
        VertexModel {
            barcode: self.barcode as int,
            status: self.status as int,
            x: self.x@,
            y: self.y@,
            z: self.z@,
            t: self.t@,
            weights: self.weights.deep_view(),
            particles_in: self.particles_in@.map_values(|p: Particle| p@),
            particles_out: self.particles_out@.map_values(|p: Particle| p@),
        }
    }
}

pub open spec fn wf_vertex(v: VertexModel) -> bool {
    &&& wf_float(v.x)
    &&& wf_float(v.y)
    &&& wf_float(v.z)
    &&& wf_float(v.t)
    &&& forall|m: int| 0 <= m < v.weights.len() ==> wf_float(#[trigger] v.weights[m])
    &&& forall|m: int|
        0 <= m < v.particles_in.len() ==> wf_particle(#[trigger] v.particles_in[m])
    &&& forall|m: int|
        0 <= m < v.particles_out.len() ==> wf_particle(#[trigger] v.particles_out[m])
}

/// Scattering event.
#[derive(Debug, PartialEq, Eq, Clone)]
pub struct Event {
    pub number: i32,
    pub mpi: i32,
    pub scale: String,
    pub alpha_qcd: String,
    pub alpha_qed: String,
    pub signal_process_id: i32,
    pub signal_process_vertex: i32,
    pub random_states: Vec<i32>,
    pub weights: Vec<String>,
    pub weight_names: Vec<String>,
    pub vertices: Vec<Vertex>,
    pub xs: CrossSection,
    pub pdf_info: PdfInfo,
    pub energy_unit: EnergyUnit,
    pub length_unit: LengthUnit,
    pub heavy_ion_info: Option<HeavyIonInfo>,
}

#[verifier::ext_equal]
pub ghost struct EventModel {
    pub number: int,
    pub mpi: int,
    pub scale: Seq<char>,
    pub alpha_qcd: Seq<char>,
    pub alpha_qed: Seq<char>,
    pub signal_process_id: int,
    pub signal_process_vertex: int,
    pub random_states: Seq<int>,
    pub weights: Seq<Seq<char>>,
    pub weight_names: Seq<Seq<char>>,
    pub vertices: Seq<VertexModel>,
    pub xs: CrossSectionModel,
    pub pdf_info: PdfInfoModel,
    pub energy_unit: EnergyUnit,
    pub length_unit: LengthUnit,
    pub heavy_ion_info: Option<HeavyIonInfoModel>,
}

impl View for Event {
    type V = EventModel;

    open spec fn view(&self) -> EventModel {
        EventModel {
            number: self.number as int,
            mpi: self.mpi as int,
            scale: self.scale@,
            alpha_qcd: self.alpha_qcd@,
            alpha_qed: self.alpha_qed@,
            signal_process_id: self.signal_process_id as int,
            signal_process_vertex: self.signal_process_vertex as int,
            random_states: self.random_states@.map_values(|x: i32| x as int),
            weights: self.weights.deep_view(),
            weight_names: self.weight_names.deep_view(),
            vertices: self.vertices@.map_values(|v: Vertex| v@),
            xs: self.xs@,
            pdf_info: self.pdf_info@,
            energy_unit: self.energy_unit,
            length_unit: self.length_unit,
            heavy_ion_info: match self.heavy_ion_info {
                Some(h) => Some(h@),
                None => None,
            },
        }
    }
}

/// A well-formed event: every numeric text field holds one whitespace-free
/// floating-point token and every weight name is quotable.
pub open spec fn wf_event(e: EventModel) -> bool {
    &&& wf_float(e.scale)
    &&& wf_float(e.alpha_qcd)
    &&& wf_float(e.alpha_qed)
    &&& forall|m: int| 0 <= m < e.weights.len() ==> wf_float(#[trigger] e.weights[m])
    &&& forall|m: int| 0 <= m < e.weight_names.len() ==> name_ok(#[trigger] e.weight_names[m])
    &&& forall|m: int| 0 <= m < e.vertices.len() ==> wf_vertex(#[trigger] e.vertices[m])
    &&& wf_cross_section(e.xs)
    &&& wf_pdf_info(e.pdf_info)
    &&& match e.heavy_ion_info {
        Some(h) => wf_heavy_ion_info(h),
        None => true,
    }
}

/// Machine limit on one vertex: its two particle counts, which the writer
/// sums into one field, fit the platform's size type together.
pub open spec fn counts_ok(e: EventModel) -> bool {
    forall|m: int|
        0 <= m < e.vertices.len() ==> (#[trigger] e.vertices[m]).particles_in.len()
            + e.vertices[m].particles_out.len() <= usize::MAX
}

impl Default for Particle {
    /// A zeroed particle with an empty flow map.
    fn default() -> (r: Self)
        ensures
            r@.id == 0,
            r@.status == 0,
            r@.end_vtx == 0,
            r@.p == (FourVectorModel {
                t: zero_text(),
                x: zero_text(),
                y: zero_text(),
                z: zero_text(),
            }),
            r@.m == zero_text(),
            r@.theta == zero_text(),
            r@.phi == zero_text(),
            r@.flows == Seq::<(int, int)>::empty(),
            wf_particle(r@),
    {
        let r = Particle {
            id: 0,
            p: FourVector::new(),
            m: zero_string(),
            status: 0,
            theta: zero_string(),
            phi: zero_string(),
            flows: FlowMap::new(),
            end_vtx: 0,
        };
        proof {
            lemma_zero_text_wf();
        }
        r
    }
}

impl Default for Vertex {
    /// A zeroed vertex with empty weight and particle lists.
    fn default() -> (r: Self)
        ensures
            r@.barcode == 0,
            r@.status == 0,
            r@.x == zero_text(),
            r@.y == zero_text(),
            r@.z == zero_text(),
            r@.t == zero_text(),
            r@.weights == Seq::<Seq<char>>::empty(),
            r@.particles_in == Seq::<ParticleModel>::empty(),
            r@.particles_out == Seq::<ParticleModel>::empty(),
            wf_vertex(r@),
    {
        let r = Vertex {
            barcode: 0,
            status: 0,
            x: zero_string(),
            y: zero_string(),
            z: zero_string(),
            t: zero_string(),
            weights: Vec::new(),
            particles_in: Vec::new(),
            particles_out: Vec::new(),
        };
        proof {
            lemma_zero_text_wf();
            assert(r@.weights =~= Seq::<Seq<char>>::empty());
            assert(r@.particles_in =~= Seq::<ParticleModel>::empty());
            assert(r@.particles_out =~= Seq::<ParticleModel>::empty());
        }
        r
    }
}

impl Default for HeavyIonInfo {
    /// All counts and fields zero.
    fn default() -> (r: Self)
        ensures
            wf_heavy_ion_info(r@),
            r@.ncoll_hard == 0,
            r@.impact_parameter == zero_text(),
    {
        let r = HeavyIonInfo {
            ncoll_hard: 0,
            npart_proj: 0,
            npart_targ: 0,
            ncoll: 0,
            spectator_neutrons: 0,
            spectator_protons: 0,
            n_nwounded_collisions: 0,
            nwounded_n_collisions: 0,
            nwounded_nwounded_collisions: 0,
            impact_parameter: zero_string(),
            event_plane_angle: zero_string(),
            eccentricity: zero_string(),
            sigma_inel_nn: zero_string(),
        };
        proof {
            lemma_zero_text_wf();
        }
        r
    }
}

/// The model of a default event: empty collections, zeroed scalars.
pub open spec fn spec_default_event() -> EventModel {
    EventModel {
        number: 0,
        mpi: 0,
        scale: zero_text(),
        alpha_qcd: zero_text(),
        alpha_qed: zero_text(),
        signal_process_id: 0,
        signal_process_vertex: 0,
        random_states: Seq::empty(),
        weights: Seq::empty(),
        weight_names: Seq::empty(),
        vertices: Seq::empty(),
        xs: CrossSectionModel { cross_section: zero_text(), cross_section_error: zero_text() },
        pdf_info: PdfInfoModel {
            parton_id0: 0,
            parton_id1: 0,
            x0: zero_text(),
            x1: zero_text(),
            scale: zero_text(),
            xf0: zero_text(),
            xf1: zero_text(),
            pdf_id0: 0,
            pdf_id1: 0,
        },
        energy_unit: EnergyUnit::GEV,
        length_unit: LengthUnit::CM,
        heavy_ion_info: None,
    }
}

impl Default for Event {
    /// The default event: empty collections, zeroed scalars, GeV/cm units.
    fn default() -> (r: Self)
        ensures
            r@ == spec_default_event(),
            wf_event(r@),
    {
        let r = Event {
            number: 0,
            mpi: 0,
            scale: zero_string(),
            alpha_qcd: zero_string(),
            alpha_qed: zero_string(),
            signal_process_id: 0,
            signal_process_vertex: 0,
            random_states: Vec::new(),
            weights: Vec::new(),
            weight_names: Vec::new(),
            vertices: Vec::new(),
            xs: CrossSection::default(),
            pdf_info: PdfInfo::default(),
            energy_unit: EnergyUnit::GEV,
            length_unit: LengthUnit::CM,
            heavy_ion_info: None,
        };
        proof {
            lemma_zero_text_wf();
            assert(r@.random_states =~= Seq::<int>::empty());
            assert(r@.weights =~= Seq::<Seq<char>>::empty());
            assert(r@.weight_names =~= Seq::<Seq<char>>::empty());
            assert(r@.vertices =~= Seq::<VertexModel>::empty());
            assert(r@ == spec_default_event());
        }
        r
    }
}

} // verus!
