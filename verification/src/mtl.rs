//! Materials parsed from MTL text.

use crate::vector::Vec3;
use vstd::prelude::*;

verus! {

/// One value of a material property.
#[derive(Clone, Debug, PartialEq)]
pub enum MaterialProperty {
    /// A number with a fraction, as on `Ns` lines; an IEEE 754 single
    /// precision bit pattern.
    Float(u32),
    /// An integer, as on `illum` lines.
    Integer(u32),
    /// A three-component vector, as on `Kd` lines.
    Vector(Vec3),
    /// A texture path, as on `map_Kd` lines.
    Path(Vec<u8>),
}

/// The mathematical value of one property.
#[verifier::ext_equal]
pub enum PropertyView {
    Float(u32),
    Integer(u32),
    Vector(Vec3),
    Path(Seq<u8>),
}

impl View for MaterialProperty {
    type V = PropertyView;

    open spec fn view(&self) -> PropertyView {
        match self {
            MaterialProperty::Float(b) => PropertyView::Float(*b),
            MaterialProperty::Integer(v) => PropertyView::Integer(*v),
            MaterialProperty::Vector(v) => PropertyView::Vector(*v),
            MaterialProperty::Path(p) => PropertyView::Path(p@),
        }
    }
}

impl DeepView for MaterialProperty {
    type V = PropertyView;

    open spec fn deep_view(&self) -> PropertyView {
        self.view()
    }
}

/// The mathematical value of a material: its name and its ordered
/// key/property list.
#[verifier::ext_equal]
pub struct MaterialView {
    pub name: Seq<u8>,
    pub properties: Seq<(Seq<u8>, PropertyView)>,
}

impl MaterialView {
    /// Keys occur at most once.
    pub open spec fn wf(self) -> bool {
        forall|i: int, j: int|
            0 <= i < j < self.properties.len() ==> (#[trigger] self.properties[i]).0 != (
            #[trigger] self.properties[j]).0
    }
}

/// The first property bound to `key`, if any.
pub open spec fn lookup(props: Seq<(Seq<u8>, PropertyView)>, key: Seq<u8>) -> Option<PropertyView>
    decreases props.len(),
{
    if props.len() == 0 {
        None
    } else if props[0].0 == key {
        Some(props[0].1)
    } else {
        lookup(props.skip(1), key)
    }
}

/// Where the first `i` keys miss, the search result is that of the rest.
pub proof fn lemma_lookup_skip(props: Seq<(Seq<u8>, PropertyView)>, key: Seq<u8>, i: int)
    requires
        0 <= i <= props.len(),
        forall|j: int| 0 <= j < i ==> (#[trigger] props[j]).0 != key,
    ensures
        lookup(props, key) == lookup(props.skip(i), key),
    decreases i,
{
    if i == 0 {
        assert(props.skip(0) =~= props);
    } else {
        assert(props[0].0 != key);
        lemma_lookup_skip(props.skip(1), key, i - 1);
        assert(props.skip(1).skip(i - 1) =~= props.skip(i));
    }
}

/// A material defined by `newmtl` in MTL text: a name and an ordered list of
/// properties with pairwise distinct keys; a later binding of a key replaces
/// the earlier one in place.
#[derive(Clone, Debug)]
pub struct Material {
    pub name: Vec<u8>,
    pub properties: Vec<(Vec<u8>, MaterialProperty)>,
}

impl View for Material {
    type V = MaterialView;

    open spec fn view(&self) -> MaterialView {
        MaterialView {
            name: self.name@,
            properties: Seq::new(
                self.properties@.len(),
                |i: int| (self.properties@[i].0@, self.properties@[i].1@),
            ),
        }
    }
}

impl DeepView for Material {
    type V = MaterialView;

    open spec fn deep_view(&self) -> MaterialView {
        self.view()
    }
}

impl Material {
    /// An empty material with the given name.
    pub fn new(name: Vec<u8>) -> (r: Material)
        ensures
            r@.name == name@,
            r@.properties == Seq::<(Seq<u8>, PropertyView)>::empty(),
            r@.wf(),
    {
        let r = Material { name, properties: Vec::new() };
        proof {
            assert(r@.properties =~= Seq::<(Seq<u8>, PropertyView)>::empty());
        }
        r
    }

    /// The material's name.
    pub fn name(&self) -> (r: &Vec<u8>)
        ensures
            r@ == self@.name,
    {
        &self.name
    }

    /// How many properties the material holds.
    pub fn property_count(&self) -> (r: usize)
        ensures
            r == self@.properties.len(),
    {
        self.properties.len()
    }

    /// The first property bound to `key`, if any.
    pub fn get(&self, key: &[u8]) -> (r: Option<&MaterialProperty>)
        ensures
            match r {
                Some(p) => lookup(self@.properties, key@) == Some(p@),
                None => lookup(self@.properties, key@) is None,
            },
    {
        let mut i: usize = 0;
        while i < self.properties.len()
            invariant
                0 <= i <= self@.properties.len(),
                self.properties@.len() == self@.properties.len(),
                forall|j: int| 0 <= j < i ==> (#[trigger] self@.properties[j]).0 != key@,
            decreases self@.properties.len() - i,
        {
            if crate::text::bytes_eq(self.properties[i].0.as_slice(), key) {
                proof {
                    lemma_lookup_skip(self@.properties, key@, i as int);
                }
                return Some(&self.properties[i].1);
            }
            i = i + 1;
        }
        proof {
            lemma_lookup_skip(self@.properties, key@, i as int);
            assert(self@.properties.skip(i as int) =~= Seq::<(Seq<u8>, PropertyView)>::empty());
        }
        None
    }

    /// Binds `key` to `value`: replaces the first binding of `key` in place,
    /// or appends a new one.
    pub fn insert(&mut self, key: Vec<u8>, value: MaterialProperty)
        requires
            old(self)@.wf(),
        ensures
            final(self)@.wf(),
            final(self)@.name == old(self)@.name,
            final(self)@.properties == spec_insert(old(self)@.properties, key@, value@),
    {
        let ghost prev = self@.properties;
        let mut i: usize = 0;
        while i < self.properties.len()
            invariant
                0 <= i <= self.properties@.len(),
                self@.properties == prev,
                self@.name == old(self)@.name,
                prev == old(self)@.properties,
                old(self)@.wf(),
                forall|j: int| 0 <= j < i ==> (#[trigger] prev[j]).0 != key@,
            decreases self.properties@.len() - i,
        {
            if crate::text::bytes_eq(self.properties[i].0.as_slice(), key.as_slice()) {
                proof {
                    assert(prev[i as int].0 == key@);
                }
                self.properties.set(i, (key, value));
                proof {
                    lemma_spec_insert_hit(prev, key@, value@, i as int);
                    assert(self@.properties =~= spec_insert(prev, key@, value@));
                    assert forall|a: int, b: int|
                        0 <= a < b < self@.properties.len() implies (
                    #[trigger] self@.properties[a]).0 != (#[trigger] self@.properties[b]).0 by {
                        assert(prev[a].0 != prev[b].0);
                        assert(self@.properties[a].0 == prev[a].0);
                        assert(self@.properties[b].0 == prev[b].0);
                    }
                }
                return ;
            }
            i = i + 1;
        }
        let ghost prev_len = self.properties@.len();
        self.properties.push((key, value));
        proof {
            lemma_spec_insert_miss(prev, key@, value@);
            assert(self@.properties =~= prev.push((key@, value@)));
            assert forall|a: int, b: int| 0 <= a < b < self@.properties.len() implies (
            #[trigger] self@.properties[a]).0 != (#[trigger] self@.properties[b]).0 by {
                if b < prev.len() {
                    assert(prev[a].0 != prev[b].0);
                } else {
                    assert(self@.properties[b].0 == key@);
                    assert(prev[a].0 != key@);
                }
            }
        }
    }
}

/// Binding a key in an ordered property list: the first binding of the key
/// is replaced in place; a missing key is appended at the end.
pub open spec fn spec_insert(
    props: Seq<(Seq<u8>, PropertyView)>,
    key: Seq<u8>,
    value: PropertyView,
) -> Seq<(Seq<u8>, PropertyView)>
    decreases props.len(),
{
    if props.len() == 0 {
        seq![(key, value)]
    } else if props[0].0 == key {
        seq![(key, value)] + props.skip(1)
    } else {
        seq![props[0]] + spec_insert(props.skip(1), key, value)
    }
}

proof fn lemma_spec_insert_hit(
    props: Seq<(Seq<u8>, PropertyView)>,
    key: Seq<u8>,
    value: PropertyView,
    i: int,
)
    requires
        0 <= i < props.len(),
        props[i].0 == key,
        forall|j: int| 0 <= j < i ==> (#[trigger] props[j]).0 != key,
    ensures
        spec_insert(props, key, value) =~= props.update(i, (key, value)),
    decreases i,
{
    if i == 0 {
        assert(spec_insert(props, key, value) =~= props.update(0, (key, value)));
    } else {
        lemma_spec_insert_hit(props.skip(1), key, value, i - 1);
        assert(spec_insert(props, key, value) =~= seq![props[0]] + props.skip(1).update(
            i - 1,
            (key, value),
        ));
        assert(seq![props[0]] + props.skip(1).update(i - 1, (key, value)) =~= props.update(
            i,
            (key, value),
        ));
    }
}

proof fn lemma_spec_insert_miss(
    props: Seq<(Seq<u8>, PropertyView)>,
    key: Seq<u8>,
    value: PropertyView,
)
    requires
        forall|j: int| 0 <= j < props.len() ==> (#[trigger] props[j]).0 != key,
    ensures
        spec_insert(props, key, value) =~= props.push((key, value)),
    decreases props.len(),
{
    if props.len() > 0 {
        lemma_spec_insert_miss(props.skip(1), key, value);
        assert(seq![props[0]] + props.skip(1).push((key, value)) =~= props.push((key, value)));
    }
}

/// The bytes of the `Ka` key.
pub open spec fn key_ka() -> Seq<u8> {
    seq!['K' as u8, 'a' as u8]
}

/// The bytes of the `Kd` key.
pub open spec fn key_kd() -> Seq<u8> {
    seq!['K' as u8, 'd' as u8]
}

/// The bytes of the `Ns` key.
pub open spec fn key_ns() -> Seq<u8> {
    seq!['N' as u8, 's' as u8]
}

/// The bytes of the `illum` key.
pub open spec fn key_illum() -> Seq<u8> {
    seq!['i' as u8, 'l' as u8, 'l' as u8, 'u' as u8, 'm' as u8]
}

/// The bytes of the `map_Kd` key.
pub open spec fn key_map_kd() -> Seq<u8> {
    seq!['m' as u8, 'a' as u8, 'p' as u8, '_' as u8, 'K' as u8, 'd' as u8]
}

impl Material {
    /// The `Ka` ambient color, where one is bound as a vector.
    pub fn ambient_color(&self) -> (r: Option<Vec3>)
        ensures
            r == (match lookup(self@.properties, key_ka()) {
                Some(PropertyView::Vector(v)) => Some(v),
                _ => None::<Vec3>,
            }),
    {
        let mut key: Vec<u8> = Vec::new();
        key.push('K' as u8);
        key.push('a' as u8);
        proof {
            assert(key@ =~= key_ka());
        }
        match self.get(key.as_slice()) {
            Some(MaterialProperty::Vector(v)) => Some(*v),
            _ => None,
        }
    }

    /// The `Kd` diffuse color, where one is bound as a vector.
    pub fn diffuse_color(&self) -> (r: Option<Vec3>)
        ensures
            r == (match lookup(self@.properties, key_kd()) {
                Some(PropertyView::Vector(v)) => Some(v),
                _ => None::<Vec3>,
            }),
    {
        let mut key: Vec<u8> = Vec::new();
        key.push('K' as u8);
        key.push('d' as u8);
        proof {
            assert(key@ =~= key_kd());
        }
        match self.get(key.as_slice()) {
            Some(MaterialProperty::Vector(v)) => Some(*v),
            _ => None,
        }
    }

    /// The `Ns` specular intensity bit pattern, where one is bound as a
    /// number.
    pub fn specular_intensity(&self) -> (r: Option<u32>)
        ensures
            r == (match lookup(self@.properties, key_ns()) {
                Some(PropertyView::Float(v)) => Some(v),
                _ => None::<u32>,
            }),
    {
        let mut key: Vec<u8> = Vec::new();
        key.push('N' as u8);
        key.push('s' as u8);
        proof {
            assert(key@ =~= key_ns());
        }
        match self.get(key.as_slice()) {
            Some(MaterialProperty::Float(v)) => Some(*v),
            _ => None,
        }
    }

    /// The `illum` illumination model, where one is bound as an integer.
    pub fn illumination(&self) -> (r: Option<u32>)
        ensures
            r == (match lookup(self@.properties, key_illum()) {
                Some(PropertyView::Integer(v)) => Some(v),
                _ => None::<u32>,
            }),
    {
        let mut key: Vec<u8> = Vec::new();
        key.push('i' as u8);
        key.push('l' as u8);
        key.push('l' as u8);
        key.push('u' as u8);
        key.push('m' as u8);
        proof {
            assert(key@ =~= key_illum());
        }
        match self.get(key.as_slice()) {
            Some(MaterialProperty::Integer(v)) => Some(*v),
            _ => None,
        }
    }

    /// The `map_Kd` diffuse texture path, where one is bound as a path.
    pub fn diffuse_map(&self) -> (r: Option<&Vec<u8>>)
        ensures
            r.deep_view() == (match lookup(self@.properties, key_map_kd()) {
                Some(PropertyView::Path(p)) => Some(p),
                _ => None::<Seq<u8>>,
            }),
    {
        let mut key: Vec<u8> = Vec::new();
        key.push('m' as u8);
        key.push('a' as u8);
        key.push('p' as u8);
        key.push('_' as u8);
        key.push('K' as u8);
        key.push('d' as u8);
        proof {
            assert(key@ =~= key_map_kd());
        }
        match self.get(key.as_slice()) {
            Some(MaterialProperty::Path(p)) => Some(p),
            _ => None,
        }
    }
}

} // verus!
