//! The OBJ/MTL parser: a line-by-line state machine over byte text.
//!
//! The whole behaviour is stated by the spec functions in this module:
//! `spec_parse` folds `obj_line_step` over the lines of the source, and the
//! executable parser is proved to return exactly that fold.

use crate::error::Error;
use crate::mtl::{spec_insert, Material, MaterialProperty, MaterialView, PropertyView};
use crate::numbers::{parse_u32, parse_usize, parsed_uint};
use crate::obj::{
    face_pair_in_range, FaceIndexPair, Group, GroupView, Object, ObjectView, WavefrontObj,
    WavefrontObjView,
};
use crate::text::{lines_of, split_bytes, split_lines, split_sep, tokenize, tokens_of};
use crate::vector::{normalized_of, parse_normalized, parse_scalar, parsed_scalar, Vec2, Vec3};
use vstd::prelude::*;

verus! {

// ---------------------------------------------------------------------------
// Keywords
// ---------------------------------------------------------------------------
/// The bytes of the `mtllib` keyword.
pub open spec fn kw_mtllib() -> Seq<u8> {
    seq!['m' as u8, 't' as u8, 'l' as u8, 'l' as u8, 'i' as u8, 'b' as u8]
}

/// The bytes of the `usemtl` keyword.
pub open spec fn kw_usemtl() -> Seq<u8> {
    seq!['u' as u8, 's' as u8, 'e' as u8, 'm' as u8, 't' as u8, 'l' as u8]
}

/// The bytes of the `newmtl` keyword.
pub open spec fn kw_newmtl() -> Seq<u8> {
    seq!['n' as u8, 'e' as u8, 'w' as u8, 'm' as u8, 't' as u8, 'l' as u8]
}

/// The bytes of the `illum` keyword.
pub open spec fn kw_illum() -> Seq<u8> {
    seq!['i' as u8, 'l' as u8, 'l' as u8, 'u' as u8, 'm' as u8]
}

/// The bytes of the `map_` keyword prefix.
pub open spec fn kw_map_prefix() -> Seq<u8> {
    seq!['m' as u8, 'a' as u8, 'p' as u8, '_' as u8]
}

/// The bytes of the `o` keyword.
pub open spec fn kw_o() -> Seq<u8> {
    seq!['o' as u8]
}

/// The bytes of the `g` keyword.
pub open spec fn kw_g() -> Seq<u8> {
    seq!['g' as u8]
}

/// The bytes of the `v` keyword.
pub open spec fn kw_v() -> Seq<u8> {
    seq!['v' as u8]
}

/// The bytes of the `vt` keyword.
pub open spec fn kw_vt() -> Seq<u8> {
    seq!['v' as u8, 't' as u8]
}

/// The bytes of the `vn` keyword.
pub open spec fn kw_vn() -> Seq<u8> {
    seq!['v' as u8, 'n' as u8]
}

/// The bytes of the `f` keyword.
pub open spec fn kw_f() -> Seq<u8> {
    seq!['f' as u8]
}

// ---------------------------------------------------------------------------
// Token takers
// ---------------------------------------------------------------------------
/// Reading one number from an argument list, as `Ns` and `Ni` lines do: the
/// first token must exist and read as a number; its bit pattern results.
pub open spec fn spec_take_single(args: Seq<Seq<u8>>) -> Result<u32, Error> {
    if args.len() < 1 {
        Err(Error::NotEnoughData { found: 0, expected: 1 })
    } else {
        match parsed_scalar(args[0]) {
            Some(x) => Ok(x),
            None => Err(Error::ParseError),
        }
    }
}

/// Reading one integer from an argument list, as `illum` lines do.
pub open spec fn spec_take_integer(args: Seq<Seq<u8>>) -> Result<u32, Error> {
    if args.len() < 1 {
        Err(Error::NotEnoughData { found: 0, expected: 1 })
    } else {
        match parsed_uint(args[0], u32::MAX as nat) {
            Some(v) => Ok(v as u32),
            None => Err(Error::ParseError),
        }
    }
}

/// Reading two numbers from an argument list, as `vt` lines do; extra tokens
/// are ignored.
pub open spec fn spec_take_vec2(args: Seq<Seq<u8>>) -> Result<Vec2, Error> {
    if args.len() < 2 {
        Err(Error::NotEnoughData { found: args.len() as usize, expected: 2 })
    } else {
        match (parsed_scalar(args[0]), parsed_scalar(args[1])) {
            (Some(x), Some(y)) => Ok(Vec2 { x, y }),
            _ => Err(Error::ParseError),
        }
    }
}

/// Reading three numbers from an argument list, as `v` and `K*` lines do;
/// extra tokens are ignored.
pub open spec fn spec_take_vec3(args: Seq<Seq<u8>>) -> Result<Vec3, Error> {
    if args.len() < 3 {
        Err(Error::NotEnoughData { found: args.len() as usize, expected: 3 })
    } else {
        match (parsed_scalar(args[0]), parsed_scalar(args[1]), parsed_scalar(args[2])) {
            (Some(x), Some(y), Some(z)) => Ok(Vec3 { x, y, z }),
            _ => Err(Error::ParseError),
        }
    }
}

/// Reading three numbers and normalizing the vector, as `vn` lines do.
pub open spec fn spec_take_normal(args: Seq<Seq<u8>>) -> Result<Vec3, Error> {
    if args.len() < 3 {
        Err(Error::NotEnoughData { found: args.len() as usize, expected: 3 })
    } else {
        match (parsed_scalar(args[0]), parsed_scalar(args[1]), parsed_scalar(args[2])) {
            (Some(x), Some(y), Some(z)) => Ok(
                Vec3 {
                    x: normalized_of(x, y, z).0,
                    y: normalized_of(x, y, z).1,
                    z: normalized_of(x, y, z).2,
                },
            ),
            _ => Err(Error::ParseError),
        }
    }
}

// ---------------------------------------------------------------------------
// Faces
// ---------------------------------------------------------------------------
/// One slash-separated slot of a face vertex token: an empty slot selects
/// nothing; a number is file-global and one-based, and is translated by the
/// running offset to a zero-based group-local index, which must point at one
/// of the `n` elements the group holds so far.
pub open spec fn spec_face_slot(part: Seq<u8>, off: nat, n: nat) -> Result<Option<usize>, Error> {
    if part.len() == 0 {
        Ok(None)
    } else {
        match parsed_uint(part, usize::MAX as nat) {
            None => Err(Error::ParseError),
            Some(p) => if p <= off {
                Err(Error::InvalidIndex)
            } else if p - off - 1 >= n {
                Err(Error::InvalidIndex)
            } else {
                Ok(Some((p - off - 1) as usize))
            },
        }
    }
}

/// One face vertex token: one part (`v`) or three parts (`v/vt/vn`); the
/// vertex slot may not be empty.
pub open spec fn spec_face_token(
    tok: Seq<u8>,
    offs: (nat, nat, nat),
    lens: (nat, nat, nat),
) -> Result<FaceIndexPair, Error> {
    let parts = split_sep(tok, '/' as u8);
    if parts.len() != 1 && parts.len() != 3 {
        Err(Error::InvalidFaceVertex)
    } else {
        match spec_face_slot(parts[0], offs.0, lens.0) {
            Err(e) => Err(e),
            Ok(None) => Err(Error::InvalidIndex),
            Ok(Some(v)) => if parts.len() == 1 {
                Ok(FaceIndexPair(v, None, None))
            } else {
                match spec_face_slot(parts[1], offs.1, lens.1) {
                    Err(e) => Err(e),
                    Ok(t) => match spec_face_slot(parts[2], offs.2, lens.2) {
                        Err(e) => Err(e),
                        Ok(n) => Ok(FaceIndexPair(v, t, n)),
                    },
                }
            },
        }
    }
}

/// A whole `f` line: each token in order, left to right.
pub open spec fn spec_parse_face(
    args: Seq<Seq<u8>>,
    offs: (nat, nat, nat),
    lens: (nat, nat, nat),
) -> Result<Seq<FaceIndexPair>, Error>
    decreases args.len(),
{
    if args.len() == 0 {
        Ok(Seq::<FaceIndexPair>::empty())
    } else {
        match spec_face_token(args[0], offs, lens) {
            Err(e) => Err(e),
            Ok(p) => match spec_parse_face(args.skip(1), offs, lens) {
                Err(e) => Err(e),
                Ok(rest) => Ok(seq![p] + rest),
            },
        }
    }
}

// ---------------------------------------------------------------------------
// Paths
// ---------------------------------------------------------------------------
/// Collapses each doubled backslash to a single one, left to right, as MTL
/// texture paths are unescaped.
pub open spec fn unescaped(s: Seq<u8>) -> Seq<u8>
    decreases s.len(),
{
    if s.len() == 0 {
        Seq::<u8>::empty()
    } else if s.len() >= 2 && s[0] == 92 && s[1] == 92 {
        seq![92u8] + unescaped(s.skip(2))
    } else {
        seq![s[0]] + unescaped(s.skip(1))
    }
}

// ---------------------------------------------------------------------------
// Parser state
// ---------------------------------------------------------------------------
/// The whole accumulated state of the parser between lines.
#[verifier::ext_equal]
pub struct ParseState {
    /// Elements consumed by all groups committed so far, file-wide:
    /// vertices, texture coordinates, normals.
    pub offsets: (nat, nat, nat),
    /// The group being filled.
    pub group: GroupView,
    /// The name of the object being filled.
    pub object_name: Option<Seq<u8>>,
    /// Groups committed into the object being filled.
    pub groups: Seq<GroupView>,
    /// Objects committed so far.
    pub objects: Seq<ObjectView>,
    /// The name of the material being filled.
    pub mtl_name: Seq<u8>,
    /// The properties of the material being filled.
    pub mtl_props: Seq<(Seq<u8>, PropertyView)>,
    /// Materials committed so far.
    pub materials: Seq<MaterialView>,
    /// Material libraries consumed so far.
    pub libs_used: nat,
}

/// An empty group accumulator.
pub open spec fn empty_group() -> GroupView {
    GroupView {
        name: None,
        material_name: None,
        vertices: Seq::<Vec3>::empty(),
        texture_uvs: Seq::<Vec2>::empty(),
        normals: Seq::<Vec3>::empty(),
        face_index_pairs: Seq::<Seq<FaceIndexPair>>::empty(),
    }
}

/// The state before the first line.
pub open spec fn init_state() -> ParseState {
    ParseState {
        offsets: (0, 0, 0),
        group: empty_group(),
        object_name: None,
        groups: Seq::<GroupView>::empty(),
        objects: Seq::<ObjectView>::empty(),
        mtl_name: Seq::<u8>::empty(),
        mtl_props: Seq::<(Seq<u8>, PropertyView)>::empty(),
        materials: Seq::<MaterialView>::empty(),
        libs_used: 0,
    }
}

/// Committing the current group: the running offsets advance by the group's
/// element counts whether or not it is kept; the group is pushed into the
/// current object only if it has at least one face; the accumulator resets
/// and carries nothing forward.
pub open spec fn st_commit_group(st: ParseState) -> ParseState {
    let groups2 = if st.group.face_index_pairs.len() > 0 {
        st.groups.push(st.group)
    } else {
        st.groups
    };
    ParseState {
        offsets: (
            st.offsets.0 + st.group.vertices.len(),
            st.offsets.1 + st.group.texture_uvs.len(),
            st.offsets.2 + st.group.normals.len(),
        ),
        group: empty_group(),
        groups: groups2,
        ..st
    }
}

/// Committing the current object: its group is committed first; the object
/// is pushed only if it has at least one committed group; the accumulator
/// resets.
pub open spec fn st_commit_object(st: ParseState) -> ParseState {
    let st1 = st_commit_group(st);
    let objects2 = if st1.groups.len() > 0 {
        st1.objects.push(ObjectView { name: st1.object_name, groups: st1.groups })
    } else {
        st1.objects
    };
    ParseState { object_name: None, groups: Seq::<GroupView>::empty(), objects: objects2, ..st1 }
}

/// Committing the current material: it is pushed only if it has at least one
/// property; the property accumulator clears, the name stays.
pub open spec fn st_commit_material(st: ParseState) -> ParseState {
    let materials2 = if st.mtl_props.len() > 0 {
        st.materials.push(MaterialView { name: st.mtl_name, properties: st.mtl_props })
    } else {
        st.materials
    };
    ParseState { mtl_props: Seq::<(Seq<u8>, PropertyView)>::empty(), materials: materials2, ..st }
}

// ---------------------------------------------------------------------------
// MTL lines
// ---------------------------------------------------------------------------
/// One MTL line: blank and comment lines do nothing; `newmtl` commits and
/// renames; `illum` binds an integer; a `K` keyword binds a vector; an `N`
/// keyword binds a number; a `map_` keyword binds an unescaped path;
/// anything else is ignored.
pub open spec fn mtl_line_step(st: ParseState, line: Seq<u8>) -> Result<ParseState, Error> {
    let toks = tokens_of(line);
    if toks.len() == 0 || toks[0][0] == '#' as u8 {
        Ok(st)
    } else {
        let kw = toks[0];
        let args = toks.skip(1);
        if kw == kw_newmtl() {
            let st1 = st_commit_material(st);
            let name2 = if args.len() > 0 {
                args[0]
            } else {
                Seq::<u8>::empty()
            };
            Ok(ParseState { mtl_name: name2, ..st1 })
        } else if kw == kw_illum() {
            match spec_take_integer(args) {
                Err(e) => Err(e),
                Ok(v) => Ok(
                    ParseState {
                        mtl_props: spec_insert(st.mtl_props, kw, PropertyView::Integer(v)),
                        ..st
                    },
                ),
            }
        } else if kw[0] == 'K' as u8 {
            match spec_take_vec3(args) {
                Err(e) => Err(e),
                Ok(v) => Ok(
                    ParseState {
                        mtl_props: spec_insert(st.mtl_props, kw, PropertyView::Vector(v)),
                        ..st
                    },
                ),
            }
        } else if kw[0] == 'N' as u8 {
            match spec_take_single(args) {
                Err(e) => Err(e),
                Ok(v) => Ok(
                    ParseState {
                        mtl_props: spec_insert(st.mtl_props, kw, PropertyView::Float(v)),
                        ..st
                    },
                ),
            }
        } else if kw.len() >= 4 && kw.take(4) == kw_map_prefix() {
            let raw = if args.len() > 0 {
                args[0]
            } else {
                Seq::<u8>::empty()
            };
            Ok(
                ParseState {
                    mtl_props: spec_insert(st.mtl_props, kw, PropertyView::Path(unescaped(raw))),
                    ..st
                },
            )
        } else {
            Ok(st)
        }
    }
}

/// The lines of one MTL stream from `k` on, folded in order.
pub open spec fn mtl_fold(st: ParseState, mlines: Seq<Seq<u8>>, k: int) -> Result<
    ParseState,
    Error,
>
    decreases mlines.len() - k,
{
    if k < 0 || k >= mlines.len() {
        Ok(st)
    } else {
        match mtl_line_step(st, mlines[k]) {
            Err(e) => Err(e),
            Ok(st2) => mtl_fold(st2, mlines, k + 1),
        }
    }
}

/// A whole MTL stream: its lines in order, and the final accumulator
/// committed at its end.
pub open spec fn mtl_file(st: ParseState, source: Seq<u8>) -> Result<ParseState, Error> {
    match mtl_fold(st, lines_of(source), 0) {
        Err(e) => Err(e),
        Ok(st2) => Ok(st_commit_material(st2)),
    }
}

// ---------------------------------------------------------------------------
// OBJ lines
// ---------------------------------------------------------------------------
/// One OBJ line, given the material libraries in the order `mtllib` lines
/// consume them. Blank and comment lines do nothing; unknown keywords are
/// ignored.
pub open spec fn obj_line_step(st: ParseState, line: Seq<u8>, libs: Seq<Seq<u8>>) -> Result<
    ParseState,
    Error,
> {
    let toks = tokens_of(line);
    if toks.len() == 0 || toks[0][0] == '#' as u8 {
        Ok(st)
    } else {
        let kw = toks[0];
        let args = toks.skip(1);
        if kw == kw_mtllib() {
            if args.len() == 0 || st.libs_used >= libs.len() {
                Err(Error::PathNotFound)
            } else {
                mtl_file(
                    ParseState { libs_used: st.libs_used + 1, ..st },
                    libs[st.libs_used as int],
                )
            }
        } else if kw == kw_usemtl() {
            let name = if args.len() > 0 {
                Some(args[0])
            } else {
                None
            };
            Ok(ParseState { group: GroupView { material_name: name, ..st.group }, ..st })
        } else if kw == kw_o() {
            let st1 = st_commit_object(st);
            let name = if args.len() > 0 {
                Some(args[0])
            } else {
                None
            };
            Ok(ParseState { object_name: name, ..st1 })
        } else if kw == kw_g() {
            let st1 = st_commit_group(st);
            let name = if args.len() > 0 {
                Some(args[0])
            } else {
                None
            };
            Ok(ParseState { group: GroupView { name, ..st1.group }, ..st1 })
        } else if kw == kw_v() {
            match spec_take_vec3(args) {
                Err(e) => Err(e),
                Ok(v) => Ok(
                    ParseState {
                        group: GroupView { vertices: st.group.vertices.push(v), ..st.group },
                        ..st
                    },
                ),
            }
        } else if kw == kw_vt() {
            match spec_take_vec2(args) {
                Err(e) => Err(e),
                Ok(v) => Ok(
                    ParseState {
                        group: GroupView { texture_uvs: st.group.texture_uvs.push(v), ..st.group },
                        ..st
                    },
                ),
            }
        } else if kw == kw_vn() {
            match spec_take_normal(args) {
                Err(e) => Err(e),
                Ok(v) => Ok(
                    ParseState {
                        group: GroupView { normals: st.group.normals.push(v), ..st.group },
                        ..st
                    },
                ),
            }
        } else if kw == kw_f() {
            match spec_parse_face(
                args,
                st.offsets,
                (st.group.vertices.len(), st.group.texture_uvs.len(), st.group.normals.len()),
            ) {
                Err(e) => Err(e),
                Ok(face) => Ok(
                    ParseState {
                        group: GroupView {
                            face_index_pairs: st.group.face_index_pairs.push(face),
                            ..st.group
                        },
                        ..st
                    },
                ),
            }
        } else {
            Ok(st)
        }
    }
}

/// The lines of the OBJ stream from `k` on, folded in order.
pub open spec fn obj_fold(
    st: ParseState,
    lines: Seq<Seq<u8>>,
    k: int,
    libs: Seq<Seq<u8>>,
) -> Result<ParseState, Error>
    decreases lines.len() - k,
{
    if k < 0 || k >= lines.len() {
        Ok(st)
    } else {
        match obj_line_step(st, lines[k], libs) {
            Err(e) => Err(e),
            Ok(st2) => obj_fold(st2, lines, k + 1, libs),
        }
    }
}

/// A whole parse: the lines of the OBJ source in order, the final object
/// committed at its end; `libs` holds the material library streams in the
/// order the `mtllib` lines consume them.
pub open spec fn spec_parse(input: Seq<u8>, libs: Seq<Seq<u8>>) -> Result<
    WavefrontObjView,
    Error,
> {
    match obj_fold(init_state(), lines_of(input), 0, libs) {
        Err(e) => Err(e),
        Ok(st) => {
            let st2 = st_commit_object(st);
            Ok(WavefrontObjView { objects: st2.objects, materials: st2.materials })
        },
    }
}

/// The `mtllib` arguments of the source, in file order: what a resolver is
/// asked for. An `mtllib` line without an argument stops the collection.
pub open spec fn spec_mtllib_paths(lines: Seq<Seq<u8>>, k: int) -> Result<Seq<Seq<u8>>, Error>
    decreases lines.len() - k,
{
    if k < 0 || k >= lines.len() {
        Ok(Seq::<Seq<u8>>::empty())
    } else {
        let toks = tokens_of(lines[k]);
        if toks.len() >= 1 && toks[0] == kw_mtllib() {
            if toks.len() < 2 {
                Err(Error::PathNotFound)
            } else {
                match spec_mtllib_paths(lines, k + 1) {
                    Err(e) => Err(e),
                    Ok(rest) => Ok(seq![toks[1]] + rest),
                }
            }
        } else {
            spec_mtllib_paths(lines, k + 1)
        }
    }
}


// ---------------------------------------------------------------------------
// Executable keyword values
// ---------------------------------------------------------------------------
fn kb_mtllib() -> (r: Vec<u8>)
    ensures
        r@ == kw_mtllib(),
{
    let mut v: Vec<u8> = Vec::new();
    v.push('m' as u8);
    v.push('t' as u8);
    v.push('l' as u8);
    v.push('l' as u8);
    v.push('i' as u8);
    v.push('b' as u8);
    proof {
        assert(v@ =~= kw_mtllib());
    }
    v
}

fn kb_usemtl() -> (r: Vec<u8>)
    ensures
        r@ == kw_usemtl(),
{
    let mut v: Vec<u8> = Vec::new();
    v.push('u' as u8);
    v.push('s' as u8);
    v.push('e' as u8);
    v.push('m' as u8);
    v.push('t' as u8);
    v.push('l' as u8);
    proof {
        assert(v@ =~= kw_usemtl());
    }
    v
}

fn kb_newmtl() -> (r: Vec<u8>)
    ensures
        r@ == kw_newmtl(),
{
    let mut v: Vec<u8> = Vec::new();
    v.push('n' as u8);
    v.push('e' as u8);
    v.push('w' as u8);
    v.push('m' as u8);
    v.push('t' as u8);
    v.push('l' as u8);
    proof {
        assert(v@ =~= kw_newmtl());
    }
    v
}

fn kb_illum() -> (r: Vec<u8>)
    ensures
        r@ == kw_illum(),
{
    let mut v: Vec<u8> = Vec::new();
    v.push('i' as u8);
    v.push('l' as u8);
    v.push('l' as u8);
    v.push('u' as u8);
    v.push('m' as u8);
    proof {
        assert(v@ =~= kw_illum());
    }
    v
}

fn kb_map_prefix() -> (r: Vec<u8>)
    ensures
        r@ == kw_map_prefix(),
{
    let mut v: Vec<u8> = Vec::new();
    v.push('m' as u8);
    v.push('a' as u8);
    v.push('p' as u8);
    v.push('_' as u8);
    proof {
        assert(v@ =~= kw_map_prefix());
    }
    v
}

fn kb_o() -> (r: Vec<u8>)
    ensures
        r@ == kw_o(),
{
    let mut v: Vec<u8> = Vec::new();
    v.push('o' as u8);
    proof {
        assert(v@ =~= kw_o());
    }
    v
}

fn kb_g() -> (r: Vec<u8>)
    ensures
        r@ == kw_g(),
{
    let mut v: Vec<u8> = Vec::new();
    v.push('g' as u8);
    proof {
        assert(v@ =~= kw_g());
    }
    v
}

fn kb_v() -> (r: Vec<u8>)
    ensures
        r@ == kw_v(),
{
    let mut v: Vec<u8> = Vec::new();
    v.push('v' as u8);
    proof {
        assert(v@ =~= kw_v());
    }
    v
}

fn kb_vt() -> (r: Vec<u8>)
    ensures
        r@ == kw_vt(),
{
    let mut v: Vec<u8> = Vec::new();
    v.push('v' as u8);
    v.push('t' as u8);
    proof {
        assert(v@ =~= kw_vt());
    }
    v
}

fn kb_vn() -> (r: Vec<u8>)
    ensures
        r@ == kw_vn(),
{
    let mut v: Vec<u8> = Vec::new();
    v.push('v' as u8);
    v.push('n' as u8);
    proof {
        assert(v@ =~= kw_vn());
    }
    v
}

fn kb_f() -> (r: Vec<u8>)
    ensures
        r@ == kw_f(),
{
    let mut v: Vec<u8> = Vec::new();
    v.push('f' as u8);
    proof {
        assert(v@ =~= kw_f());
    }
    v
}

// ---------------------------------------------------------------------------
// Executable token takers
// ---------------------------------------------------------------------------
/// Reads one number token; see `spec_take_single`.
pub fn take_single(args: &[Vec<u8>]) -> (r: Result<u32, Error>)
    ensures
        r == spec_take_single(args.deep_view()),
{
    if args.len() < 1 {
        return Err(Error::NotEnoughData { found: 0, expected: 1 });
    }
    proof {
        assert(args.deep_view()[0] =~= args[0]@);
    }
    match parse_scalar(args[0].as_slice()) {
        Some(x) => Ok(x),
        None => Err(Error::ParseError),
    }
}

/// Reads one integer token; see `spec_take_integer`.
pub fn take_integer(args: &[Vec<u8>]) -> (r: Result<u32, Error>)
    ensures
        r == spec_take_integer(args.deep_view()),
{
    if args.len() < 1 {
        return Err(Error::NotEnoughData { found: 0, expected: 1 });
    }
    proof {
        assert(args.deep_view()[0] =~= args[0]@);
    }
    match parse_u32(args[0].as_slice()) {
        Some(x) => Ok(x),
        None => Err(Error::ParseError),
    }
}

/// Reads two number tokens; see `spec_take_vec2`.
pub fn take_vec2(args: &[Vec<u8>]) -> (r: Result<Vec2, Error>)
    ensures
        r == spec_take_vec2(args.deep_view()),
{
    if args.len() < 2 {
        return Err(Error::NotEnoughData { found: args.len(), expected: 2 });
    }
    proof {
        assert(args.deep_view()[0] =~= args[0]@);
        assert(args.deep_view()[1] =~= args[1]@);
    }
    let x = match parse_scalar(args[0].as_slice()) {
        Some(x) => x,
        None => {
            return Err(Error::ParseError);
        },
    };
    let y = match parse_scalar(args[1].as_slice()) {
        Some(y) => y,
        None => {
            return Err(Error::ParseError);
        },
    };
    Ok(Vec2 { x, y })
}

/// Reads three number tokens; see `spec_take_vec3`.
pub fn take_vec3(args: &[Vec<u8>]) -> (r: Result<Vec3, Error>)
    ensures
        r == spec_take_vec3(args.deep_view()),
{
    if args.len() < 3 {
        return Err(Error::NotEnoughData { found: args.len(), expected: 3 });
    }
    proof {
        assert(args.deep_view()[0] =~= args[0]@);
        assert(args.deep_view()[1] =~= args[1]@);
        assert(args.deep_view()[2] =~= args[2]@);
    }
    let x = match parse_scalar(args[0].as_slice()) {
        Some(x) => x,
        None => {
            return Err(Error::ParseError);
        },
    };
    let y = match parse_scalar(args[1].as_slice()) {
        Some(y) => y,
        None => {
            return Err(Error::ParseError);
        },
    };
    let z = match parse_scalar(args[2].as_slice()) {
        Some(z) => z,
        None => {
            return Err(Error::ParseError);
        },
    };
    Ok(Vec3 { x, y, z })
}

/// Reads three number tokens and normalizes the vector; see
/// `spec_take_normal`.
pub fn take_normal(args: &[Vec<u8>]) -> (r: Result<Vec3, Error>)
    ensures
        r == spec_take_normal(args.deep_view()),
{
    if args.len() < 3 {
        return Err(Error::NotEnoughData { found: args.len(), expected: 3 });
    }
    proof {
        assert(args.deep_view()[0] =~= args[0]@);
        assert(args.deep_view()[1] =~= args[1]@);
        assert(args.deep_view()[2] =~= args[2]@);
    }
    match parse_normalized(args[0].as_slice(), args[1].as_slice(), args[2].as_slice()) {
        Some(v) => Ok(v),
        None => Err(Error::ParseError),
    }
}

// ---------------------------------------------------------------------------
// Executable face parsing
// ---------------------------------------------------------------------------
/// Reads one slash-separated face slot; see `spec_face_slot`.
fn face_slot(part: &[u8], off: usize, n: usize) -> (r: Result<Option<usize>, Error>)
    ensures
        r == spec_face_slot(part@, off as nat, n as nat),
{
    if part.len() == 0 {
        return Ok(None);
    }
    match parse_usize(part) {
        None => Err(Error::ParseError),
        Some(p) => {
            if p <= off {
                Err(Error::InvalidIndex)
            } else {
                let local = p - off - 1;
                if local >= n {
                    Err(Error::InvalidIndex)
                } else {
                    Ok(Some(local))
                }
            }
        },
    }
}

/// Reads one face vertex token; see `spec_face_token`.
fn face_token(tok: &[u8], offs: (usize, usize, usize), lens: (usize, usize, usize)) -> (r: Result<
    FaceIndexPair,
    Error,
>)
    ensures
        r == spec_face_token(
            tok@,
            (offs.0 as nat, offs.1 as nat, offs.2 as nat),
            (lens.0 as nat, lens.1 as nat, lens.2 as nat),
        ),
{
    let parts = split_bytes(tok, '/' as u8);
    if parts.len() != 1 && parts.len() != 3 {
        return Err(Error::InvalidFaceVertex);
    }
    proof {
        assert(parts.deep_view()[0] =~= parts[0]@);
    }
    let v = match face_slot(parts[0].as_slice(), offs.0, lens.0) {
        Err(e) => {
            return Err(e);
        },
        Ok(None) => {
            return Err(Error::InvalidIndex);
        },
        Ok(Some(v)) => v,
    };
    if parts.len() == 1 {
        return Ok(FaceIndexPair(v, None, None));
    }
    proof {
        assert(parts.deep_view()[1] =~= parts[1]@);
        assert(parts.deep_view()[2] =~= parts[2]@);
    }
    let t = match face_slot(parts[1].as_slice(), offs.1, lens.1) {
        Err(e) => {
            return Err(e);
        },
        Ok(t) => t,
    };
    let n = match face_slot(parts[2].as_slice(), offs.2, lens.2) {
        Err(e) => {
            return Err(e);
        },
        Ok(n) => n,
    };
    Ok(FaceIndexPair(v, t, n))
}

/// Reads a whole `f` line; see `spec_parse_face`.
pub fn parse_face(
    args: &[Vec<u8>],
    offs: (usize, usize, usize),
    lens: (usize, usize, usize),
) -> (r: Result<Vec<FaceIndexPair>, Error>)
    ensures
        ({
            let sr = spec_parse_face(
                args.deep_view(),
                (offs.0 as nat, offs.1 as nat, offs.2 as nat),
                (lens.0 as nat, lens.1 as nat, lens.2 as nat),
            );
            match r {
                Ok(ps) => sr == Ok::<Seq<FaceIndexPair>, Error>(ps@),
                Err(e) => sr == Err::<Seq<FaceIndexPair>, Error>(e),
            }
        }),
{
    let ghost soffs = (offs.0 as nat, offs.1 as nat, offs.2 as nat);
    let ghost slens = (lens.0 as nat, lens.1 as nat, lens.2 as nat);
    let ghost dv = args.deep_view();
    let mut out: Vec<FaceIndexPair> = Vec::new();
    let mut k: usize = 0;
    proof {
        assert(dv.skip(0) =~~= dv);
    }
    while k < args.len()
        invariant
            0 <= k <= dv.len(),
            dv == args.deep_view(),
            soffs == (offs.0 as nat, offs.1 as nat, offs.2 as nat),
            slens == (lens.0 as nat, lens.1 as nat, lens.2 as nat),
            dv.len() == args@.len(),
            spec_parse_face(dv, soffs, slens) == (match spec_parse_face(
                dv.skip(k as int),
                soffs,
                slens,
            ) {
                Ok(rest) => Ok::<Seq<FaceIndexPair>, Error>(out@ + rest),
                Err(e) => Err::<Seq<FaceIndexPair>, Error>(e),
            }),
        decreases dv.len() - k,
    {
        proof {
            assert(dv.skip(k as int)[0] =~= args@[k as int]@);
            assert(dv.skip(k as int).skip(1) =~~= dv.skip(k + 1));
        }
        match face_token(args[k].as_slice(), offs, lens) {
            Err(e) => {
                return Err(e);
            },
            Ok(p) => {
                let ghost prev = out@;
                out.push(p);
                proof {
                    if spec_parse_face(dv.skip(k + 1), soffs, slens) is Ok {
                        let rest = spec_parse_face(dv.skip(k + 1), soffs, slens)->Ok_0;
                        assert(prev + (seq![p] + rest) =~= out@ + rest);
                    }
                }
            },
        }
        k = k + 1;
    }
    proof {
        assert(dv.skip(k as int) =~~= Seq::<Seq<u8>>::empty());
        assert(out@ + Seq::<FaceIndexPair>::empty() =~= out@);
    }
    Ok(out)
}

/// Collapses doubled backslashes in a texture path; see `unescaped`.
fn unescape(s: &[u8]) -> (r: Vec<u8>)
    ensures
        r@ == unescaped(s@),
{
    let mut out: Vec<u8> = Vec::new();
    let mut i: usize = 0;
    proof {
        assert(s@.skip(0) =~= s@);
    }
    while i < s.len()
        invariant
            0 <= i <= s@.len(),
            unescaped(s@) =~= out@ + unescaped(s@.skip(i as int)),
        decreases s@.len() - i,
    {
        if s[i] == 92 && i + 1 < s.len() && s[i + 1] == 92 {
            proof {
                assert(s@.skip(i as int).skip(2) =~= s@.skip(i + 2));
            }
            out.push(92);
            i = i + 2;
        } else {
            proof {
                assert(s@.skip(i as int).skip(1) =~= s@.skip(i + 1));
            }
            out.push(s[i]);
            i = i + 1;
        }
    }
    proof {
        assert(s@.skip(i as int) =~= Seq::<u8>::empty());
        assert(out@ + unescaped(s@.skip(i as int)) =~= out@);
    }
    out
}

// ---------------------------------------------------------------------------
// Small executable helpers
// ---------------------------------------------------------------------------
/// Copies a byte string.
fn copy_bytes(v: &[u8]) -> (r: Vec<u8>)
    ensures
        r@ == v@,
{
    let mut out: Vec<u8> = Vec::new();
    let mut i: usize = 0;
    while i < v.len()
        invariant
            0 <= i <= v@.len(),
            out@ =~= v@.take(i as int),
        decreases v@.len() - i,
    {
        out.push(v[i]);
        i = i + 1;
    }
    proof {
        assert(v@.take(v@.len() as int) =~= v@);
    }
    out
}

/// Whether `a` begins with `prefix`.
fn starts_with(a: &[u8], prefix: &[u8]) -> (r: bool)
    ensures
        r == (a@.len() >= prefix@.len() && a@.take(prefix@.len() as int) == prefix@),
{
    if a.len() < prefix.len() {
        return false;
    }
    let mut i: usize = 0;
    while i < prefix.len()
        invariant
            0 <= i <= prefix@.len() <= a@.len(),
            forall|j: int| 0 <= j < i ==> a@[j] == prefix@[j],
        decreases prefix@.len() - i,
    {
        if a[i] != prefix[i] {
            proof {
                assert(a@.take(prefix@.len() as int)[i as int] == a@[i as int]);
            }
            return false;
        }
        i = i + 1;
    }
    proof {
        assert(a@.take(prefix@.len() as int) =~= prefix@);
    }
    true
}

// ---------------------------------------------------------------------------
// Well-formedness of the parser state
// ---------------------------------------------------------------------------
/// Keys occur at most once in a property accumulator.
pub open spec fn props_unique(props: Seq<(Seq<u8>, PropertyView)>) -> bool {
    forall|i: int, j: int|
        0 <= i < j < props.len() ==> (#[trigger] props[i]).0 != (#[trigger] props[j]).0
}

/// All committed geometry of the state, and the group being filled, have
/// their face indices in range.
pub open spec fn st_wf(st: ParseState) -> bool {
    &&& st.group.wf()
    &&& forall|i: int| 0 <= i < st.groups.len() ==> (#[trigger] st.groups[i]).wf()
    &&& forall|i: int| 0 <= i < st.objects.len() ==> (#[trigger] st.objects[i]).wf()
}

/// Every face vertex an `f` line yields points inside the group's current
/// element counts.
proof fn lemma_parse_face_range(args: Seq<Seq<u8>>, offs: (nat, nat, nat), lens: (nat, nat, nat))
    ensures
        spec_parse_face(args, offs, lens) matches Ok(ps) ==> forall|k: int|
            0 <= k < ps.len() ==> face_pair_in_range(#[trigger] ps[k], lens.0, lens.1, lens.2),
    decreases args.len(),
{
    if args.len() > 0 {
        lemma_parse_face_range(args.skip(1), offs, lens);
    }
}

/// A committed group keeps its well-formedness, and committing touches no
/// face index.
proof fn lemma_commit_group_wf(st: ParseState)
    requires
        st_wf(st),
    ensures
        st_wf(st_commit_group(st)),
{
    let st2 = st_commit_group(st);
    assert forall|i: int| 0 <= i < st2.groups.len() implies (#[trigger] st2.groups[i]).wf() by {
        if i < st.groups.len() {
            assert(st.groups[i].wf());
        } else {
            assert(st2.groups[i] == st.group);
        }
    }
}

proof fn lemma_commit_object_wf(st: ParseState)
    requires
        st_wf(st),
    ensures
        st_wf(st_commit_object(st)),
{
    lemma_commit_group_wf(st);
    let st1 = st_commit_group(st);
    let st2 = st_commit_object(st);
    assert forall|i: int| 0 <= i < st2.objects.len() implies (#[trigger] st2.objects[i]).wf() by {
        if i < st1.objects.len() {
            assert(st1.objects[i].wf());
        } else {
            assert(st2.objects[i] == ObjectView { name: st1.object_name, groups: st1.groups });
        }
    }
}

/// An MTL line changes no geometry: offsets, the open group, the committed
/// groups and objects, and the object name stay as they are.
proof fn lemma_mtl_step_geometry(st: ParseState, line: Seq<u8>)
    ensures
        mtl_line_step(st, line) matches Ok(st2) ==> {
            &&& st2.offsets == st.offsets
            &&& st2.group == st.group
            &&& st2.groups == st.groups
            &&& st2.objects == st.objects
            &&& st2.object_name == st.object_name
            &&& st2.libs_used == st.libs_used
        },
{
}

/// A whole MTL stream changes no geometry.
proof fn lemma_mtl_fold_geometry(st: ParseState, mlines: Seq<Seq<u8>>, k: int)
    ensures
        mtl_fold(st, mlines, k) matches Ok(st2) ==> {
            &&& st2.offsets == st.offsets
            &&& st2.group == st.group
            &&& st2.groups == st.groups
            &&& st2.objects == st.objects
            &&& st2.object_name == st.object_name
            &&& st2.libs_used == st.libs_used
        },
    decreases mlines.len() - k,
{
    if 0 <= k < mlines.len() {
        lemma_mtl_step_geometry(st, mlines[k]);
        if mtl_line_step(st, mlines[k]) is Ok {
            let stm = mtl_line_step(st, mlines[k])->Ok_0;
            lemma_mtl_fold_geometry(stm, mlines, k + 1);
        }
    }
}

/// One OBJ line keeps the state well-formed.
proof fn lemma_obj_step_wf(st: ParseState, line: Seq<u8>, libs: Seq<Seq<u8>>)
    requires
        st_wf(st),
    ensures
        obj_line_step(st, line, libs) matches Ok(st2) ==> st_wf(st2),
{
    let toks = tokens_of(line);
    if toks.len() == 0 || toks[0][0] == '#' as u8 {
    } else {
        let kw = toks[0];
        let args = toks.skip(1);
        if kw == kw_mtllib() {
            if args.len() == 0 || st.libs_used >= libs.len() {
            } else {
                let stl = ParseState { libs_used: st.libs_used + 1, ..st };
                let src = libs[st.libs_used as int];
                lemma_mtl_fold_geometry(stl, lines_of(src), 0);
            }
        } else if kw == kw_usemtl() {
        } else if kw == kw_o() {
            lemma_commit_object_wf(st);
        } else if kw == kw_g() {
            lemma_commit_group_wf(st);
        } else if kw == kw_f() {
            let lens = (st.group.vertices.len(), st.group.texture_uvs.len(), st.group.normals.len());
            lemma_parse_face_range(args, st.offsets, lens);
            if spec_parse_face(args, st.offsets, lens) is Ok {
                let face = spec_parse_face(args, st.offsets, lens)->Ok_0;
                let st2 = obj_line_step(st, line, libs)->Ok_0;
                assert forall|i: int, j: int|
                    0 <= i < st2.group.face_index_pairs.len() && 0 <= j
                        < st2.group.face_index_pairs[i].len() implies face_pair_in_range(
                    #[trigger] st2.group.face_index_pairs[i][j],
                    st2.group.vertices.len(),
                    st2.group.texture_uvs.len(),
                    st2.group.normals.len(),
                ) by {
                    if i < st.group.face_index_pairs.len() {
                        assert(st.group.wf());
                        assert(face_pair_in_range(
                            st.group.face_index_pairs[i][j],
                            st.group.vertices.len(),
                            st.group.texture_uvs.len(),
                            st.group.normals.len(),
                        ));
                    } else {
                        assert(st2.group.face_index_pairs[i] == face);
                    }
                }
            }
        }
    }
}

/// The whole fold keeps the state well-formed.
proof fn lemma_obj_fold_wf(st: ParseState, lines: Seq<Seq<u8>>, k: int, libs: Seq<Seq<u8>>)
    requires
        st_wf(st),
    ensures
        obj_fold(st, lines, k, libs) matches Ok(st2) ==> st_wf(st2),
    decreases lines.len() - k,
{
    if 0 <= k < lines.len() {
        lemma_obj_step_wf(st, lines[k], libs);
        if obj_line_step(st, lines[k], libs) is Ok {
            let stm = obj_line_step(st, lines[k], libs)->Ok_0;
            lemma_obj_fold_wf(stm, lines, k + 1, libs);
        }
    }
}

/// Whatever `spec_parse` accepts is well-formed: every face index points
/// inside its group.
pub proof fn lemma_spec_parse_wf(input: Seq<u8>, libs: Seq<Seq<u8>>)
    ensures
        spec_parse(input, libs) matches Ok(w) ==> w.wf(),
{
    lemma_obj_fold_wf(init_state(), lines_of(input), 0, libs);
    if obj_fold(init_state(), lines_of(input), 0, libs) is Ok {
        let st = obj_fold(init_state(), lines_of(input), 0, libs)->Ok_0;
        lemma_commit_object_wf(st);
    }
}

// ---------------------------------------------------------------------------
// The executable state
// ---------------------------------------------------------------------------
/// The parser's accumulators, mirroring `ParseState`.
struct ParseBuffers {
    off_v: usize,
    off_t: usize,
    off_n: usize,
    group: Group,
    object_name: Option<Vec<u8>>,
    groups: Vec<Group>,
    objects: Vec<Object>,
    mtl: Material,
    materials: Vec<Material>,
    libs_used: usize,
}

impl View for ParseBuffers {
    type V = ParseState;

    closed spec fn view(&self) -> ParseState {
        ParseState {
            offsets: (self.off_v as nat, self.off_t as nat, self.off_n as nat),
            group: self.group@,
            object_name: self.object_name.deep_view(),
            groups: self.groups.deep_view(),
            objects: self.objects.deep_view(),
            mtl_name: self.mtl@.name,
            mtl_props: self.mtl@.properties,
            materials: self.materials.deep_view(),
            libs_used: self.libs_used as nat,
        }
    }
}

/// An empty group accumulator.
fn empty_group_exec() -> (r: Group)
    ensures
        r@ == empty_group(),
{
    let r = Group {
        name: None,
        material_name: None,
        vertices: Vec::new(),
        texture_uvs: Vec::new(),
        normals: Vec::new(),
        face_index_pairs: Vec::new(),
    };
    proof {
        assert(r@ =~~= empty_group());
    }
    r
}

impl ParseBuffers {
    /// The state before the first line.
    fn new() -> (r: ParseBuffers)
        ensures
            r@ == init_state(),
    {
        let r = ParseBuffers {
            off_v: 0,
            off_t: 0,
            off_n: 0,
            group: empty_group_exec(),
            object_name: None,
            groups: Vec::new(),
            objects: Vec::new(),
            mtl: Material::new(Vec::new()),
            materials: Vec::new(),
            libs_used: 0,
        };
        proof {
            assert(r@ =~~= init_state());
        }
        r
    }

    /// Commits the group being filled; see `st_commit_group`.
    fn commit_group(&mut self)
        requires
            old(self)@.offsets.0 + old(self)@.group.vertices.len() <= usize::MAX,
            old(self)@.offsets.1 + old(self)@.group.texture_uvs.len() <= usize::MAX,
            old(self)@.offsets.2 + old(self)@.group.normals.len() <= usize::MAX,
        ensures
            final(self)@ == st_commit_group(old(self)@),
    {
        self.off_v = self.off_v + self.group.vertices.len();
        self.off_t = self.off_t + self.group.texture_uvs.len();
        self.off_n = self.off_n + self.group.normals.len();
        let mut g = empty_group_exec();
        core::mem::swap(&mut g, &mut self.group);
        if g.face_index_pairs.len() > 0 {
            let ghost prev = self.groups.deep_view();
            self.groups.push(g);
            proof {
                assert(self.groups.deep_view() =~~= prev.push(g@));
            }
        }
        proof {
            assert(self@ =~~= st_commit_group(old(self)@));
        }
    }

    /// Commits the object being filled; see `st_commit_object`.
    fn commit_object(&mut self)
        requires
            old(self)@.offsets.0 + old(self)@.group.vertices.len() <= usize::MAX,
            old(self)@.offsets.1 + old(self)@.group.texture_uvs.len() <= usize::MAX,
            old(self)@.offsets.2 + old(self)@.group.normals.len() <= usize::MAX,
        ensures
            final(self)@ == st_commit_object(old(self)@),
    {
        self.commit_group();
        let mut name: Option<Vec<u8>> = None;
        core::mem::swap(&mut name, &mut self.object_name);
        if self.groups.len() > 0 {
            let mut gs: Vec<Group> = Vec::new();
            core::mem::swap(&mut gs, &mut self.groups);
            let ghost prev = self.objects.deep_view();
            self.objects.push(Object { name, groups: gs });
            proof {
                assert(self.objects.deep_view() =~~= prev.push(
                    ObjectView {
                        name: st_commit_group(old(self)@).object_name,
                        groups: st_commit_group(old(self)@).groups,
                    },
                ));
            }
        }
        proof {
            assert(self@ =~~= st_commit_object(old(self)@));
        }
    }

    /// Commits the material being filled; see `st_commit_material`.
    fn commit_material(&mut self)
        ensures
            final(self)@ == st_commit_material(old(self)@),
    {
        if self.mtl.properties.len() > 0 {
            let name = copy_bytes(self.mtl.name.as_slice());
            let mut props: Vec<(Vec<u8>, MaterialProperty)> = Vec::new();
            core::mem::swap(&mut props, &mut self.mtl.properties);
            let ghost prev = self.materials.deep_view();
            let m = Material { name, properties: props };
            proof {
                assert(m@ =~~= MaterialView {
                    name: old(self)@.mtl_name,
                    properties: old(self)@.mtl_props,
                });
            }
            self.materials.push(m);
            proof {
                assert(self.materials.deep_view() =~~= prev.push(m@));
                assert(self@.mtl_props =~~= Seq::<(Seq<u8>, PropertyView)>::empty());
            }
        }
        proof {
            assert(self@ =~~= st_commit_material(old(self)@));
        }
    }
}

impl ParseBuffers {
    /// Applies one MTL line to the accumulators; see `mtl_line_step`.
    fn process_mtl_line(&mut self, line: &[u8]) -> (r: Result<(), Error>)
        requires
            props_unique(old(self)@.mtl_props),
        ensures
            match r {
                Ok(_) => mtl_line_step(old(self)@, line@) == Ok::<ParseState, Error>(final(self)@)
                    && props_unique(final(self)@.mtl_props),
                Err(e) => mtl_line_step(old(self)@, line@) == Err::<ParseState, Error>(e),
            },
    {
        let tokens = tokenize(line);
        let ghost toks = tokens_of(line@);
        proof {
            crate::text::lemma_tokens_nonempty(line@);
        }
        if tokens.len() == 0 {
            return Ok(());
        }
        proof {
            assert(tokens.deep_view()[0] =~= tokens@[0]@);
            assert(toks[0].len() >= 1);
        }
        if tokens[0][0] == '#' as u8 {
            return Ok(());
        }
        let ghost args_spec = toks.skip(1);
        let args = vstd::slice::slice_subrange(tokens.as_slice(), 1, tokens.len());
        proof {
            assert(args.deep_view() =~~= args_spec);
        }
        let kw = tokens[0].as_slice();
        proof {
            assert(kw@ == toks[0]);
        }
        if crate::text::bytes_eq(kw, kb_newmtl().as_slice()) {
            self.commit_material();
            if args.len() >= 1 {
                proof {
                    assert(args.deep_view()[0] =~= args@[0]@);
                }
                self.mtl.name = copy_bytes(args[0].as_slice());
            } else {
                self.mtl.name = Vec::new();
            }
            proof {
                let st1 = st_commit_material(old(self)@);
                let name2 = if args_spec.len() > 0 {
                    args_spec[0]
                } else {
                    Seq::<u8>::empty()
                };
                assert(self@ =~~= (ParseState { mtl_name: name2, ..st1 }));
            }
            return Ok(());
        }
        if crate::text::bytes_eq(kw, kb_illum().as_slice()) {
            let v = match take_integer(args) {
                Ok(v) => v,
                Err(e) => {
                    return Err(e);
                },
            };
            proof {
                assert(self.mtl@.wf() == props_unique(self@.mtl_props));
            }
            self.mtl.insert(copy_bytes(kw), MaterialProperty::Integer(v));
            proof {
                assert(self@ =~~= (ParseState {
                    mtl_props: spec_insert(
                        old(self)@.mtl_props,
                        toks[0],
                        PropertyView::Integer(v),
                    ),
                    ..old(self)@
                }));
            }
            return Ok(());
        }
        if kw[0] == 'K' as u8 {
            let v = match take_vec3(args) {
                Ok(v) => v,
                Err(e) => {
                    return Err(e);
                },
            };
            self.mtl.insert(copy_bytes(kw), MaterialProperty::Vector(v));
            proof {
                assert(self@ =~~= (ParseState {
                    mtl_props: spec_insert(
                        old(self)@.mtl_props,
                        toks[0],
                        PropertyView::Vector(v),
                    ),
                    ..old(self)@
                }));
            }
            return Ok(());
        }
        if kw[0] == 'N' as u8 {
            let v = match take_single(args) {
                Ok(v) => v,
                Err(e) => {
                    return Err(e);
                },
            };
            self.mtl.insert(copy_bytes(kw), MaterialProperty::Float(v));
            proof {
                assert(self@ =~~= (ParseState {
                    mtl_props: spec_insert(old(self)@.mtl_props, toks[0], PropertyView::Float(v)),
                    ..old(self)@
                }));
            }
            return Ok(());
        }
        if starts_with(kw, kb_map_prefix().as_slice()) {
            let raw: Vec<u8> = if args.len() >= 1 {
                proof {
                    assert(args.deep_view()[0] =~= args@[0]@);
                }
                copy_bytes(args[0].as_slice())
            } else {
                Vec::new()
            };
            let path = unescape(raw.as_slice());
            self.mtl.insert(copy_bytes(kw), MaterialProperty::Path(path));
            proof {
                let raw_spec = if args_spec.len() > 0 {
                    args_spec[0]
                } else {
                    Seq::<u8>::empty()
                };
                assert(self@ =~~= (ParseState {
                    mtl_props: spec_insert(
                        old(self)@.mtl_props,
                        toks[0],
                        PropertyView::Path(unescaped(raw_spec)),
                    ),
                    ..old(self)@
                }));
            }
            return Ok(());
        }
        Ok(())
    }

    /// Applies one OBJ line to the accumulators; see `obj_line_step`.
    fn process_obj_line(&mut self, line: &[u8], libraries: &[Vec<u8>]) -> (r: Result<(), Error>)
        requires
            props_unique(old(self)@.mtl_props),
            old(self)@.offsets.0 + old(self)@.group.vertices.len() < usize::MAX,
            old(self)@.offsets.1 + old(self)@.group.texture_uvs.len() < usize::MAX,
            old(self)@.offsets.2 + old(self)@.group.normals.len() < usize::MAX,
        ensures
            match r {
                Ok(_) => {
                    &&& obj_line_step(old(self)@, line@, libraries.deep_view()) == Ok::<
                        ParseState,
                        Error,
                    >(final(self)@)
                    &&& props_unique(final(self)@.mtl_props)
                    &&& final(self)@.offsets.0 + final(self)@.group.vertices.len() <= old(self)@.offsets.0
                        + old(self)@.group.vertices.len() + 1
                    &&& final(self)@.offsets.1 + final(self)@.group.texture_uvs.len() <= old(
                        self,
                    )@.offsets.1 + old(self)@.group.texture_uvs.len() + 1
                    &&& final(self)@.offsets.2 + final(self)@.group.normals.len() <= old(
                        self,
                    )@.offsets.2 + old(self)@.group.normals.len() + 1
                },
                Err(e) => obj_line_step(old(self)@, line@, libraries.deep_view()) == Err::<
                    ParseState,
                    Error,
                >(e),
            },
    {
        let tokens = tokenize(line);
        let ghost toks = tokens_of(line@);
        proof {
            crate::text::lemma_tokens_nonempty(line@);
        }
        if tokens.len() == 0 {
            return Ok(());
        }
        proof {
            assert(tokens.deep_view()[0] =~= tokens@[0]@);
            assert(toks[0].len() >= 1);
        }
        if tokens[0][0] == '#' as u8 {
            return Ok(());
        }
        let ghost args_spec = toks.skip(1);
        let ghost libs = libraries.deep_view();
        let args = vstd::slice::slice_subrange(tokens.as_slice(), 1, tokens.len());
        proof {
            assert(args.deep_view() =~~= args_spec);
        }
        let kw = tokens[0].as_slice();
        proof {
            assert(kw@ == toks[0]);
        }
        if crate::text::bytes_eq(kw, kb_mtllib().as_slice()) {
            if args.len() == 0 || self.libs_used >= libraries.len() {
                return Err(Error::PathNotFound);
            }
            let ghost st0 = old(self)@;
            let lib_index = self.libs_used;
            self.libs_used = self.libs_used + 1;
            let ghost stl = self@;
            proof {
                assert(stl =~~= (ParseState { libs_used: st0.libs_used + 1, ..st0 }));
                assert(libraries.deep_view()[lib_index as int] =~= libraries@[lib_index as int]@);
            }
            let mlines = split_lines(libraries[lib_index].as_slice());
            let ghost mdv = mlines.deep_view();
            proof {
                assert(mdv == lines_of(libs[lib_index as int]));
            }
            let mut j: usize = 0;
            while j < mlines.len()
                invariant
                    0 <= j <= mdv.len(),
                    mdv == mlines.deep_view(),
                    mlines@.len() == mdv.len(),
                    props_unique(self@.mtl_props),
                    mtl_fold(stl, mdv, 0) == mtl_fold(self@, mdv, j as int),
                    libs == libraries.deep_view(),
                    mdv == lines_of(libs[lib_index as int]),
                    st0 == old(self)@,
                    stl == (ParseState { libs_used: st0.libs_used + 1, ..st0 }),
                    st0.libs_used == lib_index as nat,
                    lib_index < libs.len(),
                    toks == tokens_of(line@),
                    toks.len() >= 2,
                    toks[0] == kw_mtllib(),
                    args_spec == toks.skip(1),
                decreases mdv.len() - j,
            {
                let ghost pre = self@;
                proof {
                    assert(mdv[j as int] =~= mlines@[j as int]@);
                }
                match self.process_mtl_line(mlines[j].as_slice()) {
                    Ok(_) => {},
                    Err(e) => {
                        proof {
                            assert(mtl_line_step(pre, mdv[j as int]) == Err::<ParseState, Error>(
                                e,
                            ));
                            assert(mtl_fold(pre, mdv, j as int) == Err::<ParseState, Error>(e));
                            assert(mtl_fold(stl, mdv, 0) == Err::<ParseState, Error>(e));
                            assert(mtl_file(stl, libs[lib_index as int]) == Err::<
                                ParseState,
                                Error,
                            >(e));
                        }
                        return Err(e);
                    },
                }
                j = j + 1;
            }
            self.commit_material();
            proof {
                lemma_mtl_fold_geometry(stl, mdv, 0);
            }
            return Ok(());
        }
        if crate::text::bytes_eq(kw, kb_usemtl().as_slice()) {
            if args.len() >= 1 {
                proof {
                    assert(args.deep_view()[0] =~= args@[0]@);
                }
                self.group.material_name = Some(copy_bytes(args[0].as_slice()));
            } else {
                self.group.material_name = None;
            }
            proof {
                let name = if args_spec.len() > 0 {
                    Some(args_spec[0])
                } else {
                    None
                };
                assert(self@ =~~= (ParseState {
                    group: GroupView { material_name: name, ..old(self)@.group },
                    ..old(self)@
                }));
            }
            return Ok(());
        }
        if crate::text::bytes_eq(kw, kb_o().as_slice()) {
            self.commit_object();
            if args.len() >= 1 {
                proof {
                    assert(args.deep_view()[0] =~= args@[0]@);
                }
                self.object_name = Some(copy_bytes(args[0].as_slice()));
            } else {
                self.object_name = None;
            }
            proof {
                let st1 = st_commit_object(old(self)@);
                let name = if args_spec.len() > 0 {
                    Some(args_spec[0])
                } else {
                    None
                };
                assert(self@ =~~= (ParseState { object_name: name, ..st1 }));
            }
            return Ok(());
        }
        if crate::text::bytes_eq(kw, kb_g().as_slice()) {
            self.commit_group();
            if args.len() >= 1 {
                proof {
                    assert(args.deep_view()[0] =~= args@[0]@);
                }
                self.group.name = Some(copy_bytes(args[0].as_slice()));
            } else {
                self.group.name = None;
            }
            proof {
                let st1 = st_commit_group(old(self)@);
                let name = if args_spec.len() > 0 {
                    Some(args_spec[0])
                } else {
                    None
                };
                assert(self@ =~~= (ParseState {
                    group: GroupView { name, ..st1.group },
                    ..st1
                }));
            }
            return Ok(());
        }
        if crate::text::bytes_eq(kw, kb_v().as_slice()) {
            let v = match take_vec3(args) {
                Ok(v) => v,
                Err(e) => {
                    return Err(e);
                },
            };
            self.group.vertices.push(v);
            proof {
                assert(self@ =~~= (ParseState {
                    group: GroupView {
                        vertices: old(self)@.group.vertices.push(v),
                        ..old(self)@.group
                    },
                    ..old(self)@
                }));
            }
            return Ok(());
        }
        if crate::text::bytes_eq(kw, kb_vt().as_slice()) {
            let v = match take_vec2(args) {
                Ok(v) => v,
                Err(e) => {
                    return Err(e);
                },
            };
            self.group.texture_uvs.push(v);
            proof {
                assert(self@ =~~= (ParseState {
                    group: GroupView {
                        texture_uvs: old(self)@.group.texture_uvs.push(v),
                        ..old(self)@.group
                    },
                    ..old(self)@
                }));
            }
            return Ok(());
        }
        if crate::text::bytes_eq(kw, kb_vn().as_slice()) {
            let v = match take_normal(args) {
                Ok(v) => v,
                Err(e) => {
                    return Err(e);
                },
            };
            self.group.normals.push(v);
            proof {
                assert(self@ =~~= (ParseState {
                    group: GroupView {
                        normals: old(self)@.group.normals.push(v),
                        ..old(self)@.group
                    },
                    ..old(self)@
                }));
            }
            return Ok(());
        }
        if crate::text::bytes_eq(kw, kb_f().as_slice()) {
            let offs = (self.off_v, self.off_t, self.off_n);
            let lens = (
                self.group.vertices.len(),
                self.group.texture_uvs.len(),
                self.group.normals.len(),
            );
            let ps = match parse_face(args, offs, lens) {
                Ok(ps) => ps,
                Err(e) => {
                    return Err(e);
                },
            };
            let ghost prev_faces = self.group.face_index_pairs.deep_view();
            self.group.face_index_pairs.push(ps);
            proof {
                assert(self.group.face_index_pairs.deep_view() =~~= prev_faces.push(ps@));
                assert(self@ =~~= (ParseState {
                    group: GroupView {
                        face_index_pairs: old(self)@.group.face_index_pairs.push(ps@),
                        ..old(self)@.group
                    },
                    ..old(self)@
                }));
            }
            return Ok(());
        }
        Ok(())
    }
}

impl WavefrontObj {
    /// Parses OBJ text against material libraries supplied up front:
    /// `libraries` holds the byte streams of the material libraries, in the
    /// order the `mtllib` lines of the source consume them. The result is
    /// exactly `spec_parse`, and it is well-formed: every face index points
    /// inside its group.
    pub fn parse_with_libraries(input: &[u8], libraries: &[Vec<u8>]) -> (r: Result<
        WavefrontObj,
        Error,
    >)
        ensures
            match r {
                Ok(w) => spec_parse(input@, libraries.deep_view()) == Ok::<
                    WavefrontObjView,
                    Error,
                >(w@) && w@.wf(),
                Err(e) => spec_parse(input@, libraries.deep_view()) == Err::<
                    WavefrontObjView,
                    Error,
                >(e),
            },
    {
        let ghost libs = libraries.deep_view();
        let mut bufs = ParseBuffers::new();
        let lines = split_lines(input);
        let ghost ldv = lines.deep_view();
        proof {
            assert(ldv == lines_of(input@));
        }
        let mut i: usize = 0;
        while i < lines.len()
            invariant
                0 <= i <= ldv.len(),
                ldv == lines.deep_view(),
                lines@.len() == ldv.len(),
                libs == libraries.deep_view(),
                ldv == lines_of(input@),
                props_unique(bufs@.mtl_props),
                bufs@.offsets.0 + bufs@.group.vertices.len() <= i,
                bufs@.offsets.1 + bufs@.group.texture_uvs.len() <= i,
                bufs@.offsets.2 + bufs@.group.normals.len() <= i,
                obj_fold(init_state(), ldv, 0, libs) == obj_fold(bufs@, ldv, i as int, libs),
            decreases ldv.len() - i,
        {
            let ghost pre = bufs@;
            proof {
                assert(ldv[i as int] =~= lines@[i as int]@);
            }
            match bufs.process_obj_line(lines[i].as_slice(), libraries) {
                Ok(_) => {},
                Err(e) => {
                    proof {
                        assert(obj_line_step(pre, ldv[i as int], libs) == Err::<
                            ParseState,
                            Error,
                        >(e));
                        assert(obj_fold(pre, ldv, i as int, libs) == Err::<ParseState, Error>(e));
                        assert(obj_fold(init_state(), ldv, 0, libs) == Err::<ParseState, Error>(
                            e,
                        ));
                    }
                    return Err(e);
                },
            }
            i = i + 1;
        }
        proof {
            assert(obj_fold(bufs@, ldv, i as int, libs) == Ok::<ParseState, Error>(bufs@));
        }
        let ghost stf = bufs@;
        bufs.commit_object();
        let w = WavefrontObj { objects: bufs.objects, materials: bufs.materials };
        proof {
            assert(w@ =~~= (WavefrontObjView {
                objects: st_commit_object(stf).objects,
                materials: st_commit_object(stf).materials,
            }));
            lemma_spec_parse_wf(input@, libs);
        }
        Ok(w)
    }
}

/// Collects the material library paths that the `mtllib` lines of the source
/// ask for, in file order; see `spec_mtllib_paths`.
pub fn mtllib_paths(input: &[u8]) -> (r: Result<Vec<Vec<u8>>, Error>)
    ensures
        match r {
            Ok(ps) => spec_mtllib_paths(lines_of(input@), 0) == Ok::<Seq<Seq<u8>>, Error>(
                ps.deep_view(),
            ),
            Err(e) => spec_mtllib_paths(lines_of(input@), 0) == Err::<Seq<Seq<u8>>, Error>(e),
        },
{
    let lines = split_lines(input);
    let ghost ldv = lines.deep_view();
    proof {
        assert(ldv == lines_of(input@));
    }
    let mut out: Vec<Vec<u8>> = Vec::new();
    let mut i: usize = 0;
    while i < lines.len()
        invariant
            0 <= i <= ldv.len(),
            ldv == lines.deep_view(),
            lines@.len() == ldv.len(),
            ldv == lines_of(input@),
            spec_mtllib_paths(ldv, 0) == (match spec_mtllib_paths(ldv, i as int) {
                Ok(rest) => Ok::<Seq<Seq<u8>>, Error>(out.deep_view() + rest),
                Err(e) => Err::<Seq<Seq<u8>>, Error>(e),
            }),
        decreases ldv.len() - i,
    {
        proof {
            assert(ldv[i as int] =~= lines@[i as int]@);
        }
        let tokens = tokenize(lines[i].as_slice());
        let ghost toks = tokens_of(ldv[i as int]);
        if tokens.len() >= 1 {
            proof {
                assert(tokens.deep_view()[0] =~= tokens@[0]@);
            }
            if crate::text::bytes_eq(tokens[0].as_slice(), kb_mtllib().as_slice()) {
                if tokens.len() < 2 {
                    return Err(Error::PathNotFound);
                }
                proof {
                    assert(tokens.deep_view()[1] =~= tokens@[1]@);
                }
                let ghost prev = out.deep_view();
                out.push(copy_bytes(tokens[1].as_slice()));
                proof {
                    assert(out.deep_view() =~~= prev.push(toks[1]));
                    if spec_mtllib_paths(ldv, i + 1) is Ok {
                        let rest = spec_mtllib_paths(ldv, i + 1)->Ok_0;
                        assert(prev + (seq![toks[1]] + rest) =~~= out.deep_view() + rest);
                    }
                }
            }
        }
        i = i + 1;
    }
    proof {
        assert(spec_mtllib_paths(ldv, i as int) == Ok::<Seq<Seq<u8>>, Error>(
            Seq::<Seq<u8>>::empty(),
        ));
        assert(out.deep_view() + Seq::<Seq<u8>>::empty() =~~= out.deep_view());
    }
    Ok(out)
}

/// The OBJ/MTL parser. It owns the resolver that turns the path named by an
/// `mtllib` line into the bytes of that material library.
pub struct Parser<F> {
    /// Maps an `mtllib` path to the bytes of the material library it names.
    pub resolve: F,
}

impl<F: Fn(Vec<u8>) -> Result<Vec<u8>, Error>> Parser<F> {
    /// Wraps a resolver into a parser.
    pub fn new(resolve: F) -> (r: Parser<F>)
        ensures
            r.resolve == resolve,
    {
        Parser { resolve }
    }

    /// Parses OBJ text, resolving each material library the text names in
    /// file order. On success the result is `spec_parse` of the source and
    /// some library streams the resolver handed back; an error is either the
    /// parse error of the source, or one the resolver returned.
    pub fn parse(&self, input: &[u8]) -> (r: Result<WavefrontObj, Error>)
        requires
            forall|p: Vec<u8>| call_requires(self.resolve, (p,)),
        ensures
            match r {
                Ok(w) => (exists|libs: Seq<Seq<u8>>|
                    spec_parse(input@, libs) == Ok::<WavefrontObjView, Error>(w@)) && w@.wf(),
                Err(e) => spec_mtllib_paths(lines_of(input@), 0) == Err::<Seq<Seq<u8>>, Error>(e)
                    || (exists|libs: Seq<Seq<u8>>|
                    spec_parse(input@, libs) == Err::<WavefrontObjView, Error>(e)) || (exists|
                    p: Vec<u8>,
                |
                    call_ensures(self.resolve, (p,), Err::<Vec<u8>, Error>(e))),
            },
    {
        let paths = match mtllib_paths(input) {
            Ok(ps) => ps,
            Err(e) => {
                return Err(e);
            },
        };
        let mut libs: Vec<Vec<u8>> = Vec::new();
        let mut k: usize = 0;
        while k < paths.len()
            invariant
                0 <= k <= paths@.len(),
                forall|p: Vec<u8>| call_requires(self.resolve, (p,)),
            decreases paths@.len() - k,
        {
            let path = copy_bytes(paths[k].as_slice());
            let ghost path_v = path;
            match (self.resolve)(path) {
                Ok(bytes) => {
                    libs.push(bytes);
                },
                Err(e) => {
                    proof {
                        assert(call_ensures(self.resolve, (path_v,), Err::<Vec<u8>, Error>(e)));
                    }
                    return Err(e);
                },
            }
            k = k + 1;
        }
        match WavefrontObj::parse_with_libraries(input, libs.as_slice()) {
            Ok(w) => {
                proof {
                    let witness = libs.deep_view();
                    assert(spec_parse(input@, witness) == Ok::<WavefrontObjView, Error>(w@));
                }
                Ok(w)
            },
            Err(e) => {
                proof {
                    let witness = libs.deep_view();
                    assert(spec_parse(input@, witness) == Err::<WavefrontObjView, Error>(e));
                }
                Err(e)
            },
        }
    }
}

} // verus!
