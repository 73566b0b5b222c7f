//! What reading a file does to a mesh, said as relations between the mesh
//! before and the mesh after.
//!
//! The relations speak of a parser of which nothing is known but what it
//! promises of its answers. Where it answers each text in one way only, they
//! leave one mesh and one outcome, as the laws at the end show.

use vstd::prelude::*;

use crate::attribute::{attribute_of, ObjAttribute};
use crate::error::{
    face_failure, numeric_failure, ParseErrorView, NORMAL_LABEL, TEXTURE_LABEL, VERTEX_LABEL,
};
use crate::indices::{all_valid, face_corners};
use crate::model::ModelView;
use crate::reader::{lemma_scalars_read_unique, scalars_read, single_valued};
use crate::text::{operands, split, SPACE};

verus! {

/// How a numeric record on line `number` takes a pool from `before` to
/// `after`: the numbers of its operands are added as `scalars_read` says, and
/// a failure names the line under `label`.
pub open spec fn numeric_step<T, F: Fn(&str) -> Option<T>>(
    parse: F,
    tokens: Seq<Seq<u8>>,
    number: usize,
    label: Seq<char>,
    before: Seq<T>,
    after: Seq<T>,
    failure: Option<ParseErrorView>,
) -> bool {
    &&& scalars_read(parse, operands(tokens), before, after, failure is None)
    &&& failure matches Some(e) ==> e == numeric_failure(number, label)
}

/// How the line `line`, which is line `number` of its file, takes a mesh from
/// `pre` to `post`. The line is cut into tokens at every space, and its first
/// token says what it is: a position, a texture coordinate or a normal adds
/// its numbers to the pool of that kind; a face adds the corners of its
/// triangles to the index streams; any other line changes nothing and never
/// fails.
pub open spec fn line_step<T, F: Fn(&str) -> Option<T>>(
    parse: F,
    pre: ModelView<T>,
    line: Seq<u8>,
    number: usize,
    post: ModelView<T>,
    failure: Option<ParseErrorView>,
) -> bool {
    let tokens = split(line, SPACE);
    match attribute_of(tokens[0]) {
        ObjAttribute::VertexPos => {
            &&& post == (ModelView { vertex: post.vertex, ..pre })
            &&& numeric_step(
                parse,
                tokens,
                number,
                VERTEX_LABEL@,
                pre.vertex,
                post.vertex,
                failure,
            )
        },
        ObjAttribute::TexturePos => {
            &&& post == (ModelView { vertex_tex: post.vertex_tex, ..pre })
            &&& numeric_step(
                parse,
                tokens,
                number,
                TEXTURE_LABEL@,
                pre.vertex_tex,
                post.vertex_tex,
                failure,
            )
        },
        ObjAttribute::VertexNormal => {
            &&& post == (ModelView { vertex_normal_tmp: post.vertex_normal_tmp, ..pre })
            &&& numeric_step(
                parse,
                tokens,
                number,
                NORMAL_LABEL@,
                pre.vertex_normal_tmp,
                post.vertex_normal_tmp,
                failure,
            )
        },
        ObjAttribute::PolygonIndex => {
            let cs = face_corners(operands(tokens));
            &&& post == pre.with_face(tokens)
            &&& failure == if all_valid(cs) {
                None
            } else {
                Some(face_failure(number))
            }
        },
        _ => post == pre && failure is None,
    }
}

/// `trace` holds the mesh before the first line and after each of the first
/// `n` of `lines`: it starts at `pre`, ends at `post`, and each line takes
/// one mesh to the next without failing. Lines are counted from 1, and every
/// line counts, whatever it holds.
pub open spec fn is_trace<T, F: Fn(&str) -> Option<T>>(
    parse: F,
    pre: ModelView<T>,
    lines: Seq<Seq<u8>>,
    n: int,
    trace: Seq<ModelView<T>>,
    post: ModelView<T>,
) -> bool {
    &&& 0 <= n <= lines.len()
    &&& n <= usize::MAX
    &&& trace.len() == n + 1
    &&& trace[0] == pre
    &&& trace[n] == post
    &&& forall|k: int|
        0 <= k < n ==> line_step(
            parse,
            #[trigger] trace[k],
            lines[k],
            (k + 1) as usize,
            trace[k + 1],
            None,
        )
}

/// The mesh `post` can come of the mesh `pre` by reading the first `n` of
/// `lines` in turn, none of them failing.
pub open spec fn lines_loaded<T, F: Fn(&str) -> Option<T>>(
    parse: F,
    pre: ModelView<T>,
    lines: Seq<Seq<u8>>,
    n: int,
    post: ModelView<T>,
) -> bool {
    exists|trace: Seq<ModelView<T>>| is_trace(parse, pre, lines, n, trace, post)
}

/// Reading `lines` from the mesh `pre` can fail with the error `e` and leave
/// the mesh `post`: the lines before the one that `e` names are read without
/// failing, and that line fails with `e`. No line behind it is read.
pub open spec fn lines_failed<T, F: Fn(&str) -> Option<T>>(
    parse: F,
    pre: ModelView<T>,
    lines: Seq<Seq<u8>>,
    post: ModelView<T>,
    e: ParseErrorView,
) -> bool {
    let read = e.line - 1;
    &&& 0 <= read < lines.len()
    &&& exists|mid: ModelView<T>|
        #[trigger] lines_loaded(parse, pre, lines, read, mid) && line_step(
            parse,
            mid,
            lines[read],
            e.line,
            post,
            Some(e),
        )
}

/// How reading all of `lines` takes a mesh from `pre` to `post`: either every
/// line is read without failing, or the reading stops at the first line that
/// fails, with its error.
pub open spec fn load_outcome<T, F: Fn(&str) -> Option<T>>(
    parse: F,
    pre: ModelView<T>,
    lines: Seq<Seq<u8>>,
    post: ModelView<T>,
    failure: Option<ParseErrorView>,
) -> bool {
    match failure {
        None => lines_loaded(parse, pre, lines, lines.len() as int, post),
        Some(e) => lines_failed(parse, pre, lines, post, e),
    }
}

/// How many lines are read without failing where the reading ends in
/// `failure`.
pub open spec fn lines_read(lines: Seq<Seq<u8>>, failure: Option<ParseErrorView>) -> int {
    match failure {
        None => lines.len() as int,
        Some(e) => e.line - 1,
    }
}

/// The first `read` lines take the mesh from `pre` to `mid` without failing,
/// and there the reading ends: in `post` with `failure` at the line after
/// them, or with `mid` as `post` where every line is read.
pub open spec fn lines_stopped<T, F: Fn(&str) -> Option<T>>(
    parse: F,
    pre: ModelView<T>,
    lines: Seq<Seq<u8>>,
    read: int,
    mid: ModelView<T>,
    post: ModelView<T>,
    failure: Option<ParseErrorView>,
) -> bool {
    &&& lines_loaded(parse, pre, lines, read, mid)
    &&& match failure {
        None => mid == post,
        Some(e) => 0 <= read < lines.len() && line_step(
            parse,
            mid,
            lines[read],
            e.line,
            post,
            failure,
        ),
    }
}

/// Reading no line leaves the mesh as it is.
pub proof fn lemma_no_line<T, F: Fn(&str) -> Option<T>>(
    parse: F,
    pre: ModelView<T>,
    lines: Seq<Seq<u8>>,
    post: ModelView<T>,
)
    ensures
        lines_loaded(parse, pre, lines, 0, post) <==> post == pre,
{
    if post == pre {
        assert(is_trace(parse, pre, lines, 0, seq![pre], post));
    }
}

/// A line that is read without failing lengthens what `lines_loaded` tells.
pub proof fn lemma_one_more_line<T, F: Fn(&str) -> Option<T>>(
    parse: F,
    pre: ModelView<T>,
    lines: Seq<Seq<u8>>,
    n: int,
    mid: ModelView<T>,
    post: ModelView<T>,
)
    requires
        1 <= n <= lines.len(),
        n <= usize::MAX,
        lines_loaded(parse, pre, lines, n - 1, mid),
        line_step(parse, mid, lines[n - 1], n as usize, post, None),
    ensures
        lines_loaded(parse, pre, lines, n, post),
{
    let m = n - 1;
    let before = choose|trace: Seq<ModelView<T>>| is_trace(parse, pre, lines, m, trace, mid);
    let trace = before.push(post);
    assert forall|k: int| 0 <= k < n implies line_step(
        parse,
        #[trigger] trace[k],
        lines[k],
        (k + 1) as usize,
        trace[k + 1],
        None,
    ) by {
        if k < n - 1 {
            assert(trace[k] == before[k]);
            assert(trace[k + 1] == before[k + 1]);
        }
    }
    assert(is_trace(parse, pre, lines, n, trace, post));
}

/// With a parser that answers each text in one way only, a line and the
/// mesh before it say what the mesh is after it, and whether and how the
/// line fails.
pub proof fn lemma_line_step_unique<T, F: Fn(&str) -> Option<T>>(
    parse: F,
    pre: ModelView<T>,
    line: Seq<u8>,
    number: usize,
    post1: ModelView<T>,
    failure1: Option<ParseErrorView>,
    post2: ModelView<T>,
    failure2: Option<ParseErrorView>,
)
    requires
        single_valued(parse),
        line_step(parse, pre, line, number, post1, failure1),
        line_step(parse, pre, line, number, post2, failure2),
    ensures
        post1 == post2,
        failure1 == failure2,
{
    let tokens = split(line, SPACE);
    let texts = operands(tokens);
    match attribute_of(tokens[0]) {
        ObjAttribute::VertexPos => {
            lemma_scalars_read_unique(
                parse,
                texts,
                pre.vertex,
                post1.vertex,
                failure1 is None,
                post2.vertex,
                failure2 is None,
            );
        },
        ObjAttribute::TexturePos => {
            lemma_scalars_read_unique(
                parse,
                texts,
                pre.vertex_tex,
                post1.vertex_tex,
                failure1 is None,
                post2.vertex_tex,
                failure2 is None,
            );
        },
        ObjAttribute::VertexNormal => {
            lemma_scalars_read_unique(
                parse,
                texts,
                pre.vertex_normal_tmp,
                post1.vertex_normal_tmp,
                failure1 is None,
                post2.vertex_normal_tmp,
                failure2 is None,
            );
        },
        _ => {},
    }
}

/// The meshes of a trace are themselves loaded: the one at place `k` comes
/// of reading the first `k` lines.
pub proof fn lemma_trace_prefix<T, F: Fn(&str) -> Option<T>>(
    parse: F,
    pre: ModelView<T>,
    lines: Seq<Seq<u8>>,
    n: int,
    trace: Seq<ModelView<T>>,
    post: ModelView<T>,
    k: int,
)
    requires
        is_trace(parse, pre, lines, n, trace, post),
        0 <= k <= n,
    ensures
        lines_loaded(parse, pre, lines, k, trace[k]),
{
    let front = trace.take(k + 1);
    assert forall|i: int| 0 <= i < k implies line_step(
        parse,
        #[trigger] front[i],
        lines[i],
        (i + 1) as usize,
        front[i + 1],
        None,
    ) by {
        assert(front[i] == trace[i]);
        assert(front[i + 1] == trace[i + 1]);
    }
    assert(is_trace(parse, pre, lines, k, front, trace[k]));
}

/// With a parser that answers each text in one way only, two traces of the
/// same lines from the same mesh hold the same meshes.
pub proof fn lemma_traces_agree<T, F: Fn(&str) -> Option<T>>(
    parse: F,
    pre: ModelView<T>,
    lines: Seq<Seq<u8>>,
    n1: int,
    trace1: Seq<ModelView<T>>,
    post1: ModelView<T>,
    n2: int,
    trace2: Seq<ModelView<T>>,
    post2: ModelView<T>,
    k: int,
)
    requires
        single_valued(parse),
        is_trace(parse, pre, lines, n1, trace1, post1),
        is_trace(parse, pre, lines, n2, trace2, post2),
        0 <= k <= n1,
        k <= n2,
    ensures
        trace1[k] == trace2[k],
    decreases k,
{
    if k > 0 {
        lemma_traces_agree(parse, pre, lines, n1, trace1, post1, n2, trace2, post2, k - 1);
        let j = k - 1;
        assert(line_step(parse, trace1[j], lines[j], (j + 1) as usize, trace1[j + 1], None));
        assert(line_step(parse, trace2[j], lines[j], (j + 1) as usize, trace2[j + 1], None));
        lemma_line_step_unique(
            parse,
            trace1[j],
            lines[j],
            (j + 1) as usize,
            trace1[j + 1],
            None,
            trace2[j + 1],
            None,
        );
    }
}

/// Gives the mesh at which a reading ends: the one that the last line read
/// without failing left.
pub proof fn lemma_last_mesh<T, F: Fn(&str) -> Option<T>>(
    parse: F,
    pre: ModelView<T>,
    lines: Seq<Seq<u8>>,
    post: ModelView<T>,
    failure: Option<ParseErrorView>,
) -> (mid: ModelView<T>)
    requires
        load_outcome(parse, pre, lines, post, failure),
    ensures
        lines_stopped(parse, pre, lines, lines_read(lines, failure), mid, post, failure),
{
    match failure {
        None => post,
        Some(e) => {
            let read = e.line - 1;
            choose|mid: ModelView<T>|
                #[trigger] lines_loaded(parse, pre, lines, read, mid) && line_step(
                    parse,
                    mid,
                    lines[read],
                    e.line,
                    post,
                    Some(e),
                )
        },
    }
}

/// With a parser that answers each text in one way only, the lines and the
/// mesh before say what the mesh is after the reading, and whether and how
/// the reading fails: no mesh and no error but one meets `load_outcome`.
pub proof fn lemma_load_outcome_unique<T, F: Fn(&str) -> Option<T>>(
    parse: F,
    pre: ModelView<T>,
    lines: Seq<Seq<u8>>,
    post1: ModelView<T>,
    failure1: Option<ParseErrorView>,
    post2: ModelView<T>,
    failure2: Option<ParseErrorView>,
)
    requires
        single_valued(parse),
        load_outcome(parse, pre, lines, post1, failure1),
        load_outcome(parse, pre, lines, post2, failure2),
    ensures
        post1 == post2,
        failure1 == failure2,
{
    let read1 = lines_read(lines, failure1);
    let read2 = lines_read(lines, failure2);
    let before1 = lemma_last_mesh(parse, pre, lines, post1, failure1);
    let before2 = lemma_last_mesh(parse, pre, lines, post2, failure2);
    let trace1 = choose|trace: Seq<ModelView<T>>|
        is_trace(parse, pre, lines, read1, trace, before1);
    let trace2 = choose|trace: Seq<ModelView<T>>|
        is_trace(parse, pre, lines, read2, trace, before2);
    if read1 < read2 {
        lemma_traces_agree(
            parse,
            pre,
            lines,
            read1,
            trace1,
            before1,
            read2,
            trace2,
            before2,
            read1,
        );
        let e = failure1->0;
        assert(line_step(
            parse,
            trace2[read1],
            lines[read1],
            (read1 + 1) as usize,
            trace2[read1 + 1],
            None,
        ));
        lemma_line_step_unique(
            parse,
            before1,
            lines[read1],
            e.line,
            post1,
            failure1,
            trace2[read1 + 1],
            None,
        );
    } else if read2 < read1 {
        lemma_traces_agree(
            parse,
            pre,
            lines,
            read1,
            trace1,
            before1,
            read2,
            trace2,
            before2,
            read2,
        );
        let e = failure2->0;
        assert(line_step(
            parse,
            trace1[read2],
            lines[read2],
            (read2 + 1) as usize,
            trace1[read2 + 1],
            None,
        ));
        lemma_line_step_unique(
            parse,
            before2,
            lines[read2],
            e.line,
            post2,
            failure2,
            trace1[read2 + 1],
            None,
        );
    } else {
        lemma_traces_agree(
            parse,
            pre,
            lines,
            read1,
            trace1,
            before1,
            read2,
            trace2,
            before2,
            read1,
        );
        if failure1 is Some && failure2 is Some {
            lemma_line_step_unique(
                parse,
                before1,
                lines[read1],
                (read1 + 1) as usize,
                post1,
                failure1,
                post2,
                failure2,
            );
        } else if failure1 is Some {
            assert(false);
        } else if failure2 is Some {
            assert(false);
        }
    }
}

} // verus!
