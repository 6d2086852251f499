//! Whole-parse laws: what the parser yields on sources built from `v` and
//! `f` lines alone.

use crate::error::Error;
use crate::obj::{FaceIndexPair, GroupView, ObjectView};
use crate::parser::{
    init_state, kw_f, kw_v, obj_fold, obj_line_step, spec_parse, spec_parse_face, spec_take_vec3,
    st_commit_group, st_commit_object, ParseState,
};
use crate::text::{lines_of, split_sep, tokens_of};
use crate::vector::Vec3;
use vstd::prelude::*;

verus! {

/// A line the parser passes over: blank, or a comment.
pub open spec fn is_skip_line(line: Seq<u8>) -> bool {
    tokens_of(line).len() == 0 || tokens_of(line)[0][0] == '#' as u8
}

/// A well-formed vertex line: the `v` keyword and three readable numbers.
pub open spec fn is_v_line(line: Seq<u8>) -> bool {
    &&& tokens_of(line).len() >= 1
    &&& tokens_of(line)[0] == kw_v()
    &&& spec_take_vec3(tokens_of(line).skip(1)) is Ok
}

/// The vertex a well-formed `v` line declares.
pub open spec fn v_value(line: Seq<u8>) -> Vec3 {
    spec_take_vec3(tokens_of(line).skip(1))->Ok_0
}

/// A face vertex token of the plain form: a single part (no slash), reading
/// as a one-based index no larger than the vertices declared so far.
pub open spec fn simple_face_token(tok: Seq<u8>, nv: nat) -> bool {
    &&& split_sep(tok, '/' as u8).len() == 1
    &&& match crate::numbers::parsed_uint(split_sep(tok, '/' as u8)[0], usize::MAX as nat) {
        Some(p) => 1 <= p <= nv,
        None => false,
    }
}

/// The zero-based pair such a token denotes.
pub open spec fn simple_face_pair(tok: Seq<u8>) -> FaceIndexPair {
    FaceIndexPair(
        (crate::numbers::parsed_uint(split_sep(tok, '/' as u8)[0], usize::MAX as nat)->Some_0
            - 1) as usize,
        None,
        None,
    )
}

/// A well-formed plain face line over `nv` declared vertices: the `f`
/// keyword and only plain in-range vertex tokens.
pub open spec fn is_f_line(line: Seq<u8>, nv: nat) -> bool {
    &&& tokens_of(line).len() >= 1
    &&& tokens_of(line)[0] == kw_f()
    &&& forall|j: int|
        0 <= j < tokens_of(line).skip(1).len() ==> simple_face_token(
            #[trigger] tokens_of(line).skip(1)[j],
            nv,
        )
}

/// The face such a line declares: one pair per token, in order; its length
/// is exactly the line's token count.
pub open spec fn f_value(line: Seq<u8>) -> Seq<FaceIndexPair> {
    Seq::new(
        tokens_of(line).skip(1).len(),
        |j: int| simple_face_pair(tokens_of(line).skip(1)[j]),
    )
}

/// How many `v` lines stand among the first `k` lines.
pub open spec fn v_count(lines: Seq<Seq<u8>>, k: int) -> nat
    decreases k,
{
    if k <= 0 {
        0
    } else {
        v_count(lines, k - 1) + if is_v_line(lines[k - 1]) {
            1nat
        } else {
            0nat
        }
    }
}

/// A source of `v` lines, plain `f` lines over the vertices declared above
/// them, and blanks and comments, and nothing else.
pub open spec fn simple_obj(lines: Seq<Seq<u8>>) -> bool {
    forall|i: int|
        0 <= i < lines.len() ==> is_skip_line(#[trigger] lines[i]) || is_v_line(lines[i])
            || is_f_line(lines[i], v_count(lines, i))
}

/// The vertices the `v` lines from `k` on declare, in file order.
pub open spec fn collect_vertices(lines: Seq<Seq<u8>>, k: int) -> Seq<Vec3>
    decreases lines.len() - k,
{
    if k < 0 || k >= lines.len() {
        Seq::<Vec3>::empty()
    } else if is_v_line(lines[k]) {
        seq![v_value(lines[k])] + collect_vertices(lines, k + 1)
    } else {
        collect_vertices(lines, k + 1)
    }
}

/// The faces the plain `f` lines from `k` on declare, in file order.
pub open spec fn collect_faces(lines: Seq<Seq<u8>>, k: int) -> Seq<Seq<FaceIndexPair>>
    decreases lines.len() - k,
{
    if k < 0 || k >= lines.len() {
        Seq::<Seq<FaceIndexPair>>::empty()
    } else if !is_skip_line(lines[k]) && !is_v_line(lines[k]) {
        seq![f_value(lines[k])] + collect_faces(lines, k + 1)
    } else {
        collect_faces(lines, k + 1)
    }
}

/// The parser state such a source drives: everything empty but the open
/// group's vertices and faces.
pub open spec fn simple_state(vs: Seq<Vec3>, faces: Seq<Seq<FaceIndexPair>>) -> ParseState {
    ParseState {
        offsets: (0, 0, 0),
        group: GroupView {
            name: None,
            material_name: None,
            vertices: vs,
            texture_uvs: Seq::<crate::vector::Vec2>::empty(),
            normals: Seq::<Vec3>::empty(),
            face_index_pairs: faces,
        },
        object_name: None,
        groups: Seq::<GroupView>::empty(),
        objects: Seq::<ObjectView>::empty(),
        mtl_name: Seq::<u8>::empty(),
        mtl_props: Seq::<(Seq<u8>, crate::mtl::PropertyView)>::empty(),
        materials: Seq::<crate::mtl::MaterialView>::empty(),
        libs_used: 0,
    }
}

/// A plain face line parses to exactly one pair per token.
proof fn lemma_simple_face_tokens(args: Seq<Seq<u8>>, nv: nat)
    requires
        forall|j: int| 0 <= j < args.len() ==> simple_face_token(#[trigger] args[j], nv),
    ensures
        spec_parse_face(args, (0, 0, 0), (nv, 0, 0)) == Ok::<Seq<FaceIndexPair>, Error>(
            Seq::new(args.len(), |j: int| simple_face_pair(args[j])),
        ),
    decreases args.len(),
{
    if args.len() == 0 {
        assert(Seq::new(0, |j: int| simple_face_pair(args[j]))
            =~= Seq::<FaceIndexPair>::empty());
    } else {
        assert(simple_face_token(args[0], nv));
        assert forall|j: int| 0 <= j < args.skip(1).len() implies simple_face_token(
            #[trigger] args.skip(1)[j],
            nv,
        ) by {
            assert(args.skip(1)[j] == args[j + 1]);
        }
        lemma_simple_face_tokens(args.skip(1), nv);
        assert(seq![simple_face_pair(args[0])] + Seq::new(
            args.skip(1).len(),
            |j: int| simple_face_pair(args.skip(1)[j]),
        ) =~= Seq::new(args.len(), |j: int| simple_face_pair(args[j])));
    }
}

/// Folding a plain source from line `k` on: the state accumulates exactly
/// the vertices and faces the remaining lines declare.
#[verifier::rlimit(100)]
proof fn lemma_simple_fold(
    lines: Seq<Seq<u8>>,
    k: int,
    vs: Seq<Vec3>,
    faces: Seq<Seq<FaceIndexPair>>,
    libs: Seq<Seq<u8>>,
)
    requires
        simple_obj(lines),
        0 <= k <= lines.len(),
        vs.len() == v_count(lines, k),
    ensures
        obj_fold(simple_state(vs, faces), lines, k, libs) == Ok::<ParseState, Error>(
            simple_state(vs + collect_vertices(lines, k), faces + collect_faces(lines, k)),
        ),
    decreases lines.len() - k,
{
    if k >= lines.len() {
        assert(vs + collect_vertices(lines, k) =~= vs);
        assert(faces + collect_faces(lines, k) =~= faces);
        assert(simple_state(vs, faces) =~~= simple_state(
            vs + collect_vertices(lines, k),
            faces + collect_faces(lines, k),
        ));
    } else {
        let line = lines[k];
        let st = simple_state(vs, faces);
        assert(is_skip_line(line) || is_v_line(line) || is_f_line(line, v_count(lines, k)));
        if is_skip_line(line) {
            lemma_simple_fold(lines, k + 1, vs, faces, libs);
            assert(obj_line_step(st, line, libs) == Ok::<ParseState, Error>(st));
        } else if is_v_line(line) {
            let v = v_value(line);
            assert(v_count(lines, k + 1) == v_count(lines, k) + 1);
            lemma_simple_fold(lines, k + 1, vs.push(v), faces, libs);
            let toks = tokens_of(line);
            assert(toks[0] == kw_v());
            assert(toks[0][0] == 'v' as u8);
            assert(obj_line_step(st, line, libs) == Ok::<ParseState, Error>(
                simple_state(vs.push(v), faces),
            )) by {
                assert(ParseState {
                    group: GroupView { vertices: st.group.vertices.push(v), ..st.group },
                    ..st
                } =~~= simple_state(vs.push(v), faces));
            }
            assert(vs.push(v) + collect_vertices(lines, k + 1) =~= vs + collect_vertices(
                lines,
                k,
            ));
            assert(simple_state(
                vs.push(v) + collect_vertices(lines, k + 1),
                faces + collect_faces(lines, k + 1),
            ) =~~= simple_state(
                vs + collect_vertices(lines, k),
                faces + collect_faces(lines, k),
            ));
        } else {
            let nv = v_count(lines, k);
            assert(v_count(lines, k + 1) == nv);
            lemma_simple_fold(lines, k + 1, vs, faces.push(f_value(line)), libs);
            let toks = tokens_of(line);
            let args = toks.skip(1);
            assert(toks[0] == kw_f());
            assert(toks[0][0] == 'f' as u8);
            lemma_simple_face_tokens(args, nv);
            assert(spec_parse_face(
                args,
                st.offsets,
                (st.group.vertices.len(), st.group.texture_uvs.len(), st.group.normals.len()),
            ) == Ok::<Seq<FaceIndexPair>, Error>(f_value(line))) by {
                assert(st.group.vertices.len() == nv);
                assert(Seq::new(args.len(), |j: int| simple_face_pair(args[j])) =~= f_value(
                    line,
                ));
            }
            assert(obj_line_step(st, line, libs) == Ok::<ParseState, Error>(
                simple_state(vs, faces.push(f_value(line))),
            )) by {
                assert(ParseState {
                    group: GroupView {
                        face_index_pairs: st.group.face_index_pairs.push(f_value(line)),
                        ..st.group
                    },
                    ..st
                } =~~= simple_state(vs, faces.push(f_value(line))));
            }
            assert(faces.push(f_value(line)) + collect_faces(lines, k + 1) =~= faces
                + collect_faces(lines, k));
            assert(simple_state(
                vs + collect_vertices(lines, k + 1),
                faces.push(f_value(line)) + collect_faces(lines, k + 1),
            ) =~~= simple_state(
                vs + collect_vertices(lines, k),
                faces + collect_faces(lines, k),
            ));
        }
    }
}

/// Parsing a source of only `v` and `f` lines always succeeds and yields no
/// material; where the source declares at least one face it yields exactly
/// one object with exactly one group, whose vertices are the `v` values in
/// file order and whose faces are the `f` lines in file order, each with
/// exactly one vertex pair per `f` token; a source without a face yields no
/// object.
pub proof fn lemma_simple_obj_parse(input: Seq<u8>, libs: Seq<Seq<u8>>)
    requires
        simple_obj(lines_of(input)),
    ensures
        spec_parse(input, libs) matches Ok(w) && {
            let lines = lines_of(input);
            &&& w.materials == Seq::<crate::mtl::MaterialView>::empty()
            &&& collect_faces(lines, 0).len() > 0 ==> {
                &&& w.objects.len() == 1
                &&& w.objects[0].groups.len() == 1
                &&& w.objects[0].groups[0].vertices == collect_vertices(lines, 0)
                &&& w.objects[0].groups[0].face_index_pairs == collect_faces(lines, 0)
                &&& w.objects[0].groups[0].texture_uvs.len() == 0
                &&& w.objects[0].groups[0].normals.len() == 0
            }
            &&& collect_faces(lines, 0).len() == 0 ==> w.objects.len() == 0
        },
{
    let lines = lines_of(input);
    let empty_faces = Seq::<Seq<FaceIndexPair>>::empty();
    lemma_simple_fold(lines, 0, Seq::<Vec3>::empty(), empty_faces, libs);
    assert(simple_state(Seq::<Vec3>::empty(), empty_faces) =~~= init_state());
    assert(obj_fold(simple_state(Seq::<Vec3>::empty(), empty_faces), lines, 0, libs) == Ok::<
        ParseState,
        Error,
    >(
        simple_state(
            Seq::<Vec3>::empty() + collect_vertices(lines, 0),
            empty_faces + collect_faces(lines, 0),
        ),
    ));
    let vs = Seq::<Vec3>::empty() + collect_vertices(lines, 0);
    let fs = empty_faces + collect_faces(lines, 0);
    assert(vs =~= collect_vertices(lines, 0));
    assert(fs =~= collect_faces(lines, 0));
    let st = simple_state(vs, fs);
    let st2 = st_commit_object(st);
    if fs.len() > 0 {
        assert(st_commit_group(st).groups =~= seq![st.group]);
        assert(st2.objects =~= seq![
            ObjectView { name: None, groups: seq![st.group] },
        ]);
        assert(st2.objects[0].groups[0].vertices == collect_vertices(lines, 0));
    } else {
        assert(st_commit_group(st).groups =~= Seq::<GroupView>::empty());
        assert(st2.objects =~= Seq::<ObjectView>::empty());
    }
}

} // verus!
