//! The names of shader uniforms that textures and lights are bound to, and
//! the texture units they get.

use vstd::prelude::*;

use crate::text::{decimal, decimal_string};

verus! {

/// What a texture is used for in a material.
#[derive(Debug, Clone, Copy, PartialEq, Eq, Structural)]
pub enum TextureType {
    Diffuse,
    Specular,
    Emissive,
}

/// The base of the uniform name of a texture of this type.
pub open spec fn spec_base_name(t: TextureType) -> Seq<char> {
    match t {
        TextureType::Diffuse => "texture_diffuse"@,
        TextureType::Specular => "texture_specular"@,
        TextureType::Emissive => "texture_emissive"@,
    }
}

/// The base of the uniform name of a texture of this type.
pub fn base_name(t: TextureType) -> (r: &'static str)
    ensures
        r@ == spec_base_name(t),
{
    match t {
        TextureType::Diffuse => "texture_diffuse",
        TextureType::Specular => "texture_specular",
        TextureType::Emissive => "texture_emissive",
    }
}

/// `prefix` followed by the decimal numeral of `n`.
pub fn numbered(prefix: &str, n: usize) -> (s: String)
    ensures
        s@ == prefix@ + decimal(n as nat),
{
    let mut s = String::from_str(prefix);
    let digits = decimal_string(n);
    s.append(digits.as_str());
    s
}

/// A texture to bind to a texture unit, and the sampler uniform that is set
/// to that unit.
pub struct TextureBinding<T> {
    pub uniform: String,
    pub unit: u32,
    pub texture: T,
}

/// The bindings of the textures present in `slots`, slot `i` named
/// `prefix` followed by `i + 1`, on consecutive units from `first_unit`.
pub open spec fn slot_bindings<T>(slots: Seq<Option<T>>, prefix: Seq<char>, first_unit: int, upto: nat) -> Seq<
    (Seq<char>, int, T),
>
    decreases upto,
{
    if upto == 0 {
        Seq::empty()
    } else {
        let prev = slot_bindings(slots, prefix, first_unit, (upto - 1) as nat);
        match slots[upto - 1] {
            Some(t) => prev.push((prefix + decimal(upto), first_unit + prev.len() as int, t)),
            None => prev,
        }
    }
}

/// The bindings of a lit material: its diffuse textures, then its specular
/// ones, on units counting up from 1, then its emissive texture on the next
/// unit.
pub open spec fn lit_bindings<T>(diffuse: Seq<Option<T>>, specular: Seq<Option<T>>, emissive: Option<T>) -> Seq<
    (Seq<char>, int, T),
> {
    let d = slot_bindings(diffuse, "u_material.texture_diffuse"@, 1, 3);
    let s = slot_bindings(specular, "u_material.texture_specular"@, 1 + d.len() as int, 3);
    let e = match emissive {
        Some(t) => seq![("u_material.texture_emissive1"@, 1 + d.len() as int + s.len() as int, t)],
        None => Seq::empty(),
    };
    d + s + e
}

/// Whether `r` lists the bindings `spec`, in order.
pub open spec fn bindings_are<T>(r: Seq<TextureBinding<T>>, spec: Seq<(Seq<char>, int, T)>) -> bool {
    &&& r.len() == spec.len()
    &&& forall|i: int|
        0 <= i < r.len() ==> (#[trigger] r[i]).uniform@ == spec[i].0 && r[i].unit == spec[i].1
            && r[i].texture == spec[i].2
}

proof fn lemma_slot_bindings_len<T>(slots: Seq<Option<T>>, prefix: Seq<char>, first_unit: int, upto: nat)
    ensures
        slot_bindings(slots, prefix, first_unit, upto).len() <= upto,
    decreases upto,
{
    if upto > 0 {
        lemma_slot_bindings_len(slots, prefix, first_unit, (upto - 1) as nat);
    }
}

/// Appends the bindings of the textures present in `slots` (see
/// `slot_bindings`) to `out`, from unit `first_unit`.
fn push_slot_bindings<T: Copy>(
    out: &mut Vec<TextureBinding<T>>,
    slots: [Option<T>; 3],
    prefix: &str,
    first_unit: u32,
)
    requires
        first_unit <= 1000,
    ensures
        bindings_are(
            final(out)@.subrange(old(out)@.len() as int, final(out)@.len() as int),
            slot_bindings(slots@, prefix@, first_unit as int, 3),
        ),
        final(out)@.subrange(0, old(out)@.len() as int) == old(out)@,
        old(out)@.len() <= final(out)@.len(),
{
    let ghost start = out@.len();
    let mut counter: u32 = first_unit;
    let mut index: usize = 0;
    while index < 3
        invariant
            index <= 3,
            slots@.len() == 3,
            first_unit <= 1000,
            start <= out@.len(),
            out@.subrange(0, start as int) == old(out)@,
            start == old(out)@.len(),
            counter == first_unit + (out@.len() - start),
            bindings_are(
                out@.subrange(start as int, out@.len() as int),
                slot_bindings(slots@, prefix@, first_unit as int, index as nat),
            ),
        decreases 3 - index,
    {
        proof {
            lemma_slot_bindings_len(slots@, prefix@, first_unit as int, index as nat);
        }
        let ghost before = out@;
        match slots[index] {
            Some(tex) => {
                let uniform = numbered(prefix, index + 1);
                out.push(TextureBinding { uniform, unit: counter, texture: tex });
                counter = counter + 1;
                proof {
                    assert(out@.subrange(0, start as int) =~= before.subrange(0, start as int));
                    let got = out@.subrange(start as int, out@.len() as int);
                    let want = slot_bindings(slots@, prefix@, first_unit as int, (index + 1) as nat);
                    assert(got.len() == want.len());
                    assert forall|i: int| 0 <= i < got.len() implies (#[trigger] got[i]).uniform@
                        == want[i].0 && got[i].unit == want[i].1 && got[i].texture == want[i].2 by {
                        if i < got.len() - 1 {
                            assert(got[i] == before.subrange(start as int, before.len() as int)[i]);
                        }
                    }
                }
            },
            None => {},
        }
        index = index + 1;
    }
}

/// The texture bindings of a lit material (see `lit_bindings`).
pub fn lit_texture_bindings<T: Copy>(
    diffuse: [Option<T>; 3],
    specular: [Option<T>; 3],
    emissive: Option<T>,
) -> (r: Vec<TextureBinding<T>>)
    ensures
        bindings_are(r@, lit_bindings(diffuse@, specular@, emissive)),
{
    let mut r: Vec<TextureBinding<T>> = Vec::new();
    push_slot_bindings(&mut r, diffuse, "u_material.texture_diffuse", 1);
    let ghost d = r@;
    proof {
        lemma_slot_bindings_len(diffuse@, "u_material.texture_diffuse"@, 1, 3);
        assert(r@.subrange(0, r@.len() as int) =~= r@);
    }
    assert(d.len() == slot_bindings(diffuse@, "u_material.texture_diffuse"@, 1, 3).len());
    let next: u32 = 1 + r.len() as u32;
    assert(next == 1 + d.len());
    push_slot_bindings(&mut r, specular, "u_material.texture_specular", next);
    let ghost ds = r@;
    proof {
        lemma_slot_bindings_len(specular@, "u_material.texture_specular"@, next as int, 3);
        assert(ds.subrange(d.len() as int, ds.len() as int).len() == slot_bindings(
            specular@,
            "u_material.texture_specular"@,
            next as int,
            3,
        ).len());
    }
    if let Some(tex) = emissive {
        let counter: u32 = 1 + r.len() as u32;
        r.push(TextureBinding { uniform: String::from_str("u_material.texture_emissive1"), unit: counter, texture: tex });
    }
    proof {
        let want = lit_bindings(diffuse@, specular@, emissive);
        assert(r@.len() == want.len());
        assert forall|i: int| 0 <= i < r@.len() implies (#[trigger] r@[i]).uniform@ == want[i].0
            && r@[i].unit == want[i].1 && r@[i].texture == want[i].2 by {
            if i < d.len() {
                assert(r@[i] == ds[i]);
                assert(ds[i] == ds.subrange(0, d.len() as int)[i]);
            } else if i < ds.len() {
                assert(r@[i] == ds[i]);
                assert(ds[i] == ds.subrange(d.len() as int, ds.len() as int)[i - d.len()]);
            }
        }
    }
    r
}

/// The sampler uniform of a texture: `prefix`, then the base name of its
/// type, then its index among the textures of that type.
pub fn texture_uniform_name(prefix: &str, tex_type: TextureType, tex_index: u32) -> (s: String)
    ensures
        s@ == prefix@ + spec_base_name(tex_type) + decimal(tex_index as nat),
{
    let mut s = String::from_str(prefix);
    s.append(base_name(tex_type));
    let digits = decimal_string(tex_index as usize);
    s.append(digits.as_str());
    s
}

/// The sampler uniforms of textures bound to units `0, 1, ...` in turn,
/// each with the unit it is set to.
pub fn texture_uniforms(textures: &Vec<(TextureType, u32)>, prefix: &str) -> (r: Vec<(String, i32)>)
    requires
        textures@.len() <= i32::MAX,
    ensures
        r@.len() == textures@.len(),
        forall|i: int|
            0 <= i < r@.len() ==> (#[trigger] r@[i]).0@ == prefix@ + spec_base_name(textures@[i].0)
                + decimal(textures@[i].1 as nat) && r@[i].1 == i,
{
    let mut r: Vec<(String, i32)> = Vec::new();
    let mut i: usize = 0;
    while i < textures.len()
        invariant
            textures@.len() <= i32::MAX,
            i <= textures@.len(),
            r@.len() == i,
            forall|q: int|
                0 <= q < i ==> (#[trigger] r@[q]).0@ == prefix@ + spec_base_name(textures@[q].0)
                    + decimal(textures@[q].1 as nat) && r@[q].1 == q,
        decreases textures@.len() - i,
    {
        let (tex_type, tex_index) = textures[i];
        let name = texture_uniform_name(prefix, tex_type, tex_index);
        r.push((name, i as i32));
        i = i + 1;
    }
    r
}

/// How many of the first `i` textures are of type `t`.
pub open spec fn count_before(types: Seq<TextureType>, i: int, t: TextureType) -> nat
    decreases i,
{
    if i <= 0 {
        0
    } else {
        count_before(types, i - 1, t) + if types[i - 1] == t {
            1nat
        } else {
            0nat
        }
    }
}

/// The number in the uniform name of texture `i` of a mesh: diffuse and
/// specular textures are numbered from 1 within their type; there is one
/// emissive texture, numbered 1.
pub open spec fn texture_number(types: Seq<TextureType>, i: int) -> nat {
    match types[i] {
        TextureType::Emissive => 1,
        _ => 1 + count_before(types, i, types[i]),
    }
}

proof fn lemma_count_before_le(types: Seq<TextureType>, i: int, t: TextureType)
    ensures
        count_before(types, i, t) <= if i < 0 { 0 } else { i },
    decreases i,
{
    if i > 0 {
        lemma_count_before_le(types, i - 1, t);
    }
}

/// The sampler uniforms of a mesh's textures, texture `i` bound to unit
/// `i`: `texture_parent`, then the base name of its type, then its number
/// (see `texture_number`).
pub fn mesh_texture_uniforms(types: &Vec<TextureType>, texture_parent: &str) -> (r: Vec<String>)
    requires
        types@.len() < u32::MAX,
    ensures
        r@.len() == types@.len(),
        forall|i: int|
            0 <= i < r@.len() ==> (#[trigger] r@[i])@ == texture_parent@ + spec_base_name(types@[i])
                + decimal(texture_number(types@, i)),
{
    let mut diffuse_num: u32 = 1;
    let mut specular_num: u32 = 1;
    let mut r: Vec<String> = Vec::new();
    let mut i: usize = 0;
    while i < types.len()
        invariant
            types@.len() < u32::MAX,
            i <= types@.len(),
            diffuse_num == 1 + count_before(types@, i as int, TextureType::Diffuse),
            specular_num == 1 + count_before(types@, i as int, TextureType::Specular),
            r@.len() == i,
            forall|q: int|
                0 <= q < i ==> (#[trigger] r@[q])@ == texture_parent@ + spec_base_name(types@[q])
                    + decimal(texture_number(types@, q)),
        decreases types@.len() - i,
    {
        proof {
            lemma_count_before_le(types@, i as int, TextureType::Diffuse);
            lemma_count_before_le(types@, i as int, TextureType::Specular);
        }
        let texture_number: u32;
        let tex_type = types[i];
        match tex_type {
            TextureType::Diffuse => {
                texture_number = diffuse_num;
                diffuse_num = diffuse_num + 1;
            },
            TextureType::Specular => {
                texture_number = specular_num;
                specular_num = specular_num + 1;
            },
            TextureType::Emissive => {
                texture_number = 1;
            },
        }
        let name = texture_uniform_name(texture_parent, tex_type, texture_number);
        r.push(name);
        i = i + 1;
    }
    r
}

/// The uniform of light number `i` of a kind: "u_<suffix>[<i>]".
pub fn light_uniform_name(suffix: &str, i: usize) -> (s: String)
    ensures
        s@ == "u_"@ + suffix@ + "["@ + decimal(i as nat) + "]"@,
{
    let mut s = String::from_str("u_");
    s.append(suffix);
    s.append("[");
    let digits = decimal_string(i);
    s.append(digits.as_str());
    s.append("]");
    s
}

/// The uniform that holds how many lights of a kind are on: "u_num_<suffix>".
pub fn light_count_uniform_name(suffix: &str) -> (s: String)
    ensures
        s@ == "u_num_"@ + suffix@,
{
    let mut s = String::from_str("u_num_");
    s.append(suffix);
    s
}

/// How many of the flags are set.
pub fn count_enabled(flags: &Vec<bool>) -> (n: i32)
    requires
        flags@.len() <= i32::MAX,
    ensures
        n == flags@.filter(|b: bool| b).len(),
{
    let mut n: i32 = 0;
    let mut i: usize = 0;
    while i < flags.len()
        invariant
            flags@.len() <= i32::MAX,
            i <= flags@.len(),
            n == flags@.take(i as int).filter(|b: bool| b).len(),
            n <= i,
        decreases flags@.len() - i,
    {
        proof {
            reveal_with_fuel(Seq::<bool>::filter, 1);
            assert(flags@.take(i + 1).drop_last() =~= flags@.take(i as int));
        }
        if flags[i] {
            n = n + 1;
        }
        i = i + 1;
    }
    assert(flags@.take(flags@.len() as int) =~= flags@);
    n
}

proof fn lemma_slot_units<T>(slots: Seq<Option<T>>, prefix: Seq<char>, first_unit: int, upto: nat)
    ensures
        forall|i: int|
            0 <= i < slot_bindings(slots, prefix, first_unit, upto).len() ==> (#[trigger] slot_bindings(
                slots,
                prefix,
                first_unit,
                upto,
            )[i]).1 == first_unit + i,
    decreases upto,
{
    if upto > 0 {
        let p = (upto - 1) as nat;
        lemma_slot_units(slots, prefix, first_unit, p);
        let prev = slot_bindings(slots, prefix, first_unit, p);
        let cur = slot_bindings(slots, prefix, first_unit, upto);
        assert forall|i: int| 0 <= i < cur.len() implies (#[trigger] cur[i]).1 == first_unit + i by {
            if i < prev.len() {
                assert(cur[i] == prev[i]);
            }
        }
    }
}

/// The textures of a lit material get the units 1, 2, 3, ... in the order
/// they are bound, so no two share a unit.
pub proof fn law_lit_units_consecutive<T>(diffuse: Seq<Option<T>>, specular: Seq<Option<T>>, emissive: Option<T>)
    ensures
        forall|i: int|
            0 <= i < lit_bindings(diffuse, specular, emissive).len() ==> (#[trigger] lit_bindings(
                diffuse,
                specular,
                emissive,
            )[i]).1 == i + 1,
{
    let d = slot_bindings(diffuse, "u_material.texture_diffuse"@, 1, 3);
    lemma_slot_units(diffuse, "u_material.texture_diffuse"@, 1, 3);
    lemma_slot_units(specular, "u_material.texture_specular"@, 1 + d.len() as int, 3);
}

proof fn lemma_count_before_mono(types: Seq<TextureType>, i: int, j: int, t: TextureType)
    requires
        0 <= i < j <= types.len(),
        types[i] == t,
    ensures
        count_before(types, i, t) < count_before(types, j, t),
    decreases j - i,
{
    if j > i + 1 {
        lemma_count_before_mono(types, i, j - 1, t);
    }
}

/// Two diffuse, or two specular, textures of a mesh never get the same
/// number, so never the same uniform: the later one's number is larger.
pub proof fn law_texture_numbers_increase(types: Seq<TextureType>, i: int, j: int)
    requires
        0 <= i < j < types.len(),
        types[i] == types[j],
        types[i] != TextureType::Emissive,
    ensures
        texture_number(types, i) < texture_number(types, j),
{
    lemma_count_before_mono(types, i, j, types[i]);
}

} // verus!
