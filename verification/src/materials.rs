//! The material library: the seventeen housing and bushing materials with
//! their elastic modulus and allowable strengths (ksi), Poisson's ratio
//! (hundredths) and thermal expansion coefficient (tenths of a
//! microstrain per degree Fahrenheit). Every listed value is an exact
//! decimal, so it is held as an integer in those units.

use vstd::prelude::*;

verus! {

/// One material's properties. `e_ksi`, `sy_ksi`, `fbru_ksi`, `fsu_ksi` and
/// `ftu_ksi` are in ksi; Poisson's ratio is `nu_hundredths / 100`; the
/// expansion coefficient is `alpha_tenths_u_f / 10` microstrain/°F.
#[derive(Debug, Clone, Copy)]
pub struct Material {
    pub id: &'static str,
    pub name: &'static str,
    pub e_ksi: u32,
    pub sy_ksi: u32,
    pub fbru_ksi: u32,
    pub fsu_ksi: u32,
    pub ftu_ksi: u32,
    pub nu_hundredths: u32,
    pub alpha_tenths_u_f: u32,
}

/// The material table, in catalog order.
pub open spec fn material_table() -> Seq<Material> {
    seq![
        Material { id: "al7075", name: "Al 7075-T6 (typical)", e_ksi: 10300, sy_ksi: 70, fbru_ksi: 121, fsu_ksi: 48, ftu_ksi: 77, nu_hundredths: 33, alpha_tenths_u_f: 128 },
        Material { id: "al2024", name: "Al 2024-T3 (typical)", e_ksi: 10500, sy_ksi: 47, fbru_ksi: 98, fsu_ksi: 41, ftu_ksi: 64, nu_hundredths: 33, alpha_tenths_u_f: 125 },
        Material { id: "steel", name: "Steel (typical)", e_ksi: 29000, sy_ksi: 120, fbru_ksi: 160, fsu_ksi: 70, ftu_ksi: 150, nu_hundredths: 30, alpha_tenths_u_f: 65 },
        Material { id: "al2024t3", name: "Al 2024-T3 Bare", e_ksi: 10500, sy_ksi: 47, fbru_ksi: 98, fsu_ksi: 41, ftu_ksi: 64, nu_hundredths: 33, alpha_tenths_u_f: 125 },
        Material { id: "al7075t6", name: "Al 7075-T6 Clad", e_ksi: 10300, sy_ksi: 70, fbru_ksi: 121, fsu_ksi: 48, ftu_ksi: 77, nu_hundredths: 33, alpha_tenths_u_f: 128 },
        Material { id: "al7050", name: "Al 7050-T7451", e_ksi: 10300, sy_ksi: 68, fbru_ksi: 118, fsu_ksi: 46, ftu_ksi: 76, nu_hundredths: 33, alpha_tenths_u_f: 128 },
        Material { id: "ti6al4v", name: "Ti-6Al-4V Gr.5", e_ksi: 16000, sy_ksi: 126, fbru_ksi: 215, fsu_ksi: 76, ftu_ksi: 130, nu_hundredths: 34, alpha_tenths_u_f: 49 },
        Material { id: "steel4340", name: "Steel 4340", e_ksi: 29000, sy_ksi: 217, fbru_ksi: 360, fsu_ksi: 130, ftu_ksi: 260, nu_hundredths: 29, alpha_tenths_u_f: 66 },
        Material { id: "ph157mo", name: "15-7 Mo PH", e_ksi: 29000, sy_ksi: 185, fbru_ksi: 300, fsu_ksi: 115, ftu_ksi: 200, nu_hundredths: 29, alpha_tenths_u_f: 63 },
        Material { id: "ph174", name: "17-4 PH H1025", e_ksi: 28500, sy_ksi: 145, fbru_ksi: 240, fsu_ksi: 105, ftu_ksi: 160, nu_hundredths: 29, alpha_tenths_u_f: 60 },
        Material { id: "inconel718", name: "Inconel 718", e_ksi: 29700, sy_ksi: 150, fbru_ksi: 260, fsu_ksi: 100, ftu_ksi: 180, nu_hundredths: 29, alpha_tenths_u_f: 71 },
        Material { id: "inconel625", name: "Inconel 625", e_ksi: 30100, sy_ksi: 60, fbru_ksi: 180, fsu_ksi: 75, ftu_ksi: 120, nu_hundredths: 29, alpha_tenths_u_f: 73 },
        Material { id: "cfrp_qi", name: "Carbon/Epoxy (QI)", e_ksi: 8500, sy_ksi: 80, fbru_ksi: 80, fsu_ksi: 45, ftu_ksi: 90, nu_hundredths: 30, alpha_tenths_u_f: 15 },
        Material { id: "washer_steel", name: "Washer (Steel)", e_ksi: 29000, sy_ksi: 30, fbru_ksi: 90, fsu_ksi: 30, ftu_ksi: 45, nu_hundredths: 29, alpha_tenths_u_f: 65 },
        Material { id: "washer_al", name: "Washer (Al)", e_ksi: 10300, sy_ksi: 30, fbru_ksi: 60, fsu_ksi: 20, ftu_ksi: 40, nu_hundredths: 33, alpha_tenths_u_f: 128 },
        Material { id: "bronze", name: "Al-Bronze (C630)", e_ksi: 17000, sy_ksi: 50, fbru_ksi: 130, fsu_ksi: 45, ftu_ksi: 90, nu_hundredths: 34, alpha_tenths_u_f: 90 },
        Material { id: "beryllium", name: "Be-Copper", e_ksi: 18000, sy_ksi: 95, fbru_ksi: 140, fsu_ksi: 70, ftu_ksi: 100, nu_hundredths: 30, alpha_tenths_u_f: 94 }
    ]
}

/// The entry `get_material` answers for `id`: the first entry whose id is
/// `id`, or the first entry of the table when none is.
pub open spec fn lookup_material(id: Seq<char>) -> Material {
    if exists|i: int| 0 <= i < material_table().len() && (#[trigger] material_table()[i]).id@ == id {
        material_table()[choose|i: int|
            0 <= i < material_table().len() && (#[trigger] material_table()[i]).id@ == id
                && forall|j: int| 0 <= j < i ==> (#[trigger] material_table()[j]).id@ != id]
    } else {
        material_table()[0]
    }
}

proof fn lemma_first_with_id(id: Seq<char>, n: int)
    requires
        0 <= n <= material_table().len(),
        exists|i: int| 0 <= i < n && (#[trigger] material_table()[i]).id@ == id,
    ensures
        exists|i: int|
            0 <= i < material_table().len() && (#[trigger] material_table()[i]).id@ == id && forall|j: int|
                0 <= j < i ==> (#[trigger] material_table()[j]).id@ != id,
    decreases n,
{
    if exists|i: int| 0 <= i < n - 1 && (#[trigger] material_table()[i]).id@ == id {
        lemma_first_with_id(id, n - 1);
    } else {
        assert(material_table()[n - 1].id@ == id);
        assert forall|j: int| 0 <= j < n - 1 implies (#[trigger] material_table()[j]).id@ != id by {}
    }
}

/// Looking up an id gives an entry of the table: for an id that some
/// entry has, a material with exactly that id; for an id no entry has,
/// the first entry.
pub proof fn lemma_lookup_keeps_the_id(id: Seq<char>)
    ensures
        (exists|i: int| 0 <= i < material_table().len() && (#[trigger] material_table()[i]).id@ == id)
            ==> lookup_material(id).id@ == id,
        (forall|i: int| 0 <= i < material_table().len() ==> (#[trigger] material_table()[i]).id@ != id)
            ==> lookup_material(id) == material_table()[0],
        material_table().contains(lookup_material(id)),
{
    if exists|i: int| 0 <= i < material_table().len() && (#[trigger] material_table()[i]).id@ == id {
        lemma_first_with_id(id, material_table().len() as int);
        let w = choose|i: int|
            0 <= i < material_table().len() && (#[trigger] material_table()[i]).id@ == id && forall|j: int|
                0 <= j < i ==> (#[trigger] material_table()[j]).id@ != id;
        assert(material_table()[w] == lookup_material(id));
    } else {
        assert(material_table()[0] == lookup_material(id));
    }
}

/// Every material of the table is found again by its own id.
pub proof fn lemma_every_material_found_by_id()
    ensures
        forall|i: int|
            0 <= i < material_table().len() ==> lookup_material(#[trigger] material_table()[i].id@).id@
                == material_table()[i].id@,
{
    assert forall|i: int| 0 <= i < material_table().len() implies lookup_material(
        #[trigger] material_table()[i].id@,
    ).id@ == material_table()[i].id@ by {
        lemma_lookup_keeps_the_id(material_table()[i].id@);
    }
}

/// All materials, in catalog order.
pub fn materials() -> (r: Vec<Material>)
    ensures
        r@ == material_table(),
        r.len() == 17,
{
    let v = vec![
        Material { id: "al7075", name: "Al 7075-T6 (typical)", e_ksi: 10300, sy_ksi: 70, fbru_ksi: 121, fsu_ksi: 48, ftu_ksi: 77, nu_hundredths: 33, alpha_tenths_u_f: 128 },
        Material { id: "al2024", name: "Al 2024-T3 (typical)", e_ksi: 10500, sy_ksi: 47, fbru_ksi: 98, fsu_ksi: 41, ftu_ksi: 64, nu_hundredths: 33, alpha_tenths_u_f: 125 },
        Material { id: "steel", name: "Steel (typical)", e_ksi: 29000, sy_ksi: 120, fbru_ksi: 160, fsu_ksi: 70, ftu_ksi: 150, nu_hundredths: 30, alpha_tenths_u_f: 65 },
        Material { id: "al2024t3", name: "Al 2024-T3 Bare", e_ksi: 10500, sy_ksi: 47, fbru_ksi: 98, fsu_ksi: 41, ftu_ksi: 64, nu_hundredths: 33, alpha_tenths_u_f: 125 },
        Material { id: "al7075t6", name: "Al 7075-T6 Clad", e_ksi: 10300, sy_ksi: 70, fbru_ksi: 121, fsu_ksi: 48, ftu_ksi: 77, nu_hundredths: 33, alpha_tenths_u_f: 128 },
        Material { id: "al7050", name: "Al 7050-T7451", e_ksi: 10300, sy_ksi: 68, fbru_ksi: 118, fsu_ksi: 46, ftu_ksi: 76, nu_hundredths: 33, alpha_tenths_u_f: 128 },
        Material { id: "ti6al4v", name: "Ti-6Al-4V Gr.5", e_ksi: 16000, sy_ksi: 126, fbru_ksi: 215, fsu_ksi: 76, ftu_ksi: 130, nu_hundredths: 34, alpha_tenths_u_f: 49 },
        Material { id: "steel4340", name: "Steel 4340", e_ksi: 29000, sy_ksi: 217, fbru_ksi: 360, fsu_ksi: 130, ftu_ksi: 260, nu_hundredths: 29, alpha_tenths_u_f: 66 },
        Material { id: "ph157mo", name: "15-7 Mo PH", e_ksi: 29000, sy_ksi: 185, fbru_ksi: 300, fsu_ksi: 115, ftu_ksi: 200, nu_hundredths: 29, alpha_tenths_u_f: 63 },
        Material { id: "ph174", name: "17-4 PH H1025", e_ksi: 28500, sy_ksi: 145, fbru_ksi: 240, fsu_ksi: 105, ftu_ksi: 160, nu_hundredths: 29, alpha_tenths_u_f: 60 },
        Material { id: "inconel718", name: "Inconel 718", e_ksi: 29700, sy_ksi: 150, fbru_ksi: 260, fsu_ksi: 100, ftu_ksi: 180, nu_hundredths: 29, alpha_tenths_u_f: 71 },
        Material { id: "inconel625", name: "Inconel 625", e_ksi: 30100, sy_ksi: 60, fbru_ksi: 180, fsu_ksi: 75, ftu_ksi: 120, nu_hundredths: 29, alpha_tenths_u_f: 73 },
        Material { id: "cfrp_qi", name: "Carbon/Epoxy (QI)", e_ksi: 8500, sy_ksi: 80, fbru_ksi: 80, fsu_ksi: 45, ftu_ksi: 90, nu_hundredths: 30, alpha_tenths_u_f: 15 },
        Material { id: "washer_steel", name: "Washer (Steel)", e_ksi: 29000, sy_ksi: 30, fbru_ksi: 90, fsu_ksi: 30, ftu_ksi: 45, nu_hundredths: 29, alpha_tenths_u_f: 65 },
        Material { id: "washer_al", name: "Washer (Al)", e_ksi: 10300, sy_ksi: 30, fbru_ksi: 60, fsu_ksi: 20, ftu_ksi: 40, nu_hundredths: 33, alpha_tenths_u_f: 128 },
        Material { id: "bronze", name: "Al-Bronze (C630)", e_ksi: 17000, sy_ksi: 50, fbru_ksi: 130, fsu_ksi: 45, ftu_ksi: 90, nu_hundredths: 34, alpha_tenths_u_f: 90 },
        Material { id: "beryllium", name: "Be-Copper", e_ksi: 18000, sy_ksi: 95, fbru_ksi: 140, fsu_ksi: 70, ftu_ksi: 100, nu_hundredths: 30, alpha_tenths_u_f: 94 }
    ];
    assert(v@ =~= material_table());
    v
}

/// The material with the given id; an unknown id falls back to the first
/// entry (`al7075`) rather than being an error.
pub fn get_material(id: &str) -> (r: Material)
    ensures
        r == lookup_material(id@),
{
    let table = materials();
    let mut i: usize = 0;
    while i < table.len()
        invariant
            table@ == material_table(),
            i <= table.len(),
            forall|j: int| 0 <= j < i ==> (#[trigger] material_table()[j]).id@ != id@,
        decreases table.len() - i,
    {
        if crate::text::str_eq(table[i].id, id) {
            proof {
                let w = choose|k: int|
                    0 <= k < material_table().len() && (#[trigger] material_table()[k]).id@ == id@
                        && forall|j: int| 0 <= j < k ==> (#[trigger] material_table()[j]).id@ != id@;
                assert(0 <= i < material_table().len() && material_table()[i as int].id@ == id@
                    && forall|j: int| 0 <= j < i ==> (#[trigger] material_table()[j]).id@ != id@);
                if w < i {
                } else if w > i {
                    assert(material_table()[i as int].id@ != id@);
                }
            }
            return table[i];
        }
        i = i + 1;
    }
    table[0]
}

} // verus!
