//! What holds of every request, whatever the transport's reads look like.
use vstd::prelude::*;
use crate::search::{find, matches_at, lemma_find_none};
use crate::length::length_value;
use crate::handler::{
    body_separator, header_marker, initial_model, line_separator, run, step_model, supply_model,
    IngestError, Model, Phase,
};

verus! {

/// The bytes of successive reads, in order.
pub open spec fn concat(reads: Seq<Seq<u8>>) -> Seq<u8>
    decreases reads.len(),
{
    if reads.len() == 0 {
        Seq::empty()
    } else {
        reads[0] + concat(reads.drop_first())
    }
}

/// The body length declared by a header block that arrives in one read:
/// the first `content-length:` marker, a value up to the next `\r\n`, and a
/// first `\r\n\r\n` from there that ends the read.
pub open spec fn declared_length(head: Seq<u8>) -> Option<nat> {
    match find(head, header_marker()) {
        None => None,
        Some(i) => {
            let after = head.subrange(i + header_marker().len(), head.len() as int);
            match find(after, line_separator()) {
                None => None,
                Some(j) => {
                    let rest = after.subrange(j, after.len() as int);
                    if find(rest, body_separator()) == Some(rest.len() - 4) {
                        length_value(after.subrange(0, j))
                    } else {
                        None
                    }
                },
            }
        },
    }
}

/// Once the header block is read, the sink receives exactly the bytes still
/// in the window followed by those of every later read, however the body is
/// split across reads, provided the total is the declared length.
pub proof fn lemma_stream_body(m: Model, reads: Seq<Seq<u8>>)
    requires
        m.phase == Phase::StreamBody,
        m.remaining == m.window.len() + concat(reads).len(),
        forall|i: int| 0 <= i < reads.len() ==> (#[trigger] reads[i]).len() > 0,
    ensures
        run(m, reads) == Ok::<Seq<u8>, IngestError>(m.window + concat(reads)),
    decreases reads.len(), m.window.len(),
{
    let w = m.window;
    if reads.len() > 0 {
        assert(reads[0].len() > 0);
    }
    if m.remaining == 0 {
        assert(w + concat(reads) =~= Seq::<u8>::empty());
    } else if w.len() == 0 {
        let rest = reads.drop_first();
        let m2 = supply_model(m, reads[0]);
        assert forall|i: int| 0 <= i < rest.len() implies (#[trigger] rest[i]).len() > 0 by {
            assert(rest[i] == reads[i + 1]);
        }
        lemma_stream_body(m2, rest);
        assert(w + concat(reads) =~= reads[0] + concat(rest));
    } else {
        let (next, effect) = step_model(m);
        assert(next.window =~= Seq::<u8>::empty());
        lemma_stream_body(next, reads);
        assert(w.subrange(0, w.len() as int) =~= w);
        assert(next.window + concat(reads) =~= concat(reads));
    }
}

/// A request whose header block arrives in one read and declares the
/// payload's length, followed by the payload split into any non-empty reads,
/// leaves exactly the payload in the sink and succeeds.
pub proof fn lemma_round_trip(head: Seq<u8>, body: Seq<Seq<u8>>, payload: Seq<u8>)
    requires
        declared_length(head) == Some(payload.len()),
        concat(body) == payload,
        forall|i: int| 0 <= i < body.len() ==> (#[trigger] body[i]).len() > 0,
    ensures
        run(initial_model(), seq![head] + body) == Ok::<Seq<u8>, IngestError>(payload),
{
    let reads = seq![head] + body;
    let i = find(head, header_marker()).unwrap();
    crate::search::lemma_find_first(head, header_marker(), i);
    assert(matches_at(head, header_marker(), i));
    assert(reads[0] == head);
    assert(reads.drop_first() =~= body);
    let m0 = initial_model();
    let m1 = supply_model(m0, head);
    assert(run(m0, reads) == run(m1, body));
    let after = head.subrange(i + header_marker().len(), head.len() as int);
    let (m2, e1) = step_model(m1);
    assert(m2.window == after);
    assert(run(m1, body) == run(m2, body));
    let j = find(after, line_separator()).unwrap();
    crate::search::lemma_find_first(after, line_separator(), j);
    assert(matches_at(after, line_separator(), j));
    let rest = after.subrange(j, after.len() as int);
    let (m3, e2) = step_model(m2);
    assert(m3.window == rest);
    assert(m3.remaining == payload.len());
    assert(run(m2, body) == run(m3, body));
    let k = rest.len() - 4;
    crate::search::lemma_find_first(rest, body_separator(), k);
    assert(matches_at(rest, body_separator(), k));
    let (m4, e3) = step_model(m3);
    assert(m4.window =~= Seq::<u8>::empty());
    assert(run(m3, body) == run(m4, body));
    lemma_stream_body(m4, body);
    assert(m4.window + concat(body) =~= payload);
}

/// Where neither the window nor any read holds a `content-length:` marker,
/// the request fails with `MarkerNotFound` at end-of-stream.
pub proof fn lemma_missing_header(m: Model, reads: Seq<Seq<u8>>)
    requires
        m.phase == Phase::AwaitHeaderMarker,
        find(m.window, header_marker()) == None::<int>,
        forall|i: int| 0 <= i < reads.len() ==> find(#[trigger] reads[i], header_marker()) == None::<int>,
    ensures
        run(m, reads) == Err::<Seq<u8>, IngestError>(IngestError::MarkerNotFound),
    decreases reads.len(), m.window.len(),
{
    if m.window.len() > 0 {
        let (next, effect) = step_model(m);
        assert forall|k: int| !#[trigger] matches_at(next.window, header_marker(), k) by {}
        lemma_find_none(next.window, header_marker());
        lemma_missing_header(next, reads);
    } else if reads.len() == 0 {
        let m2 = supply_model(m, Seq::empty());
        assert(run(m2, reads) == Err::<Seq<u8>, IngestError>(IngestError::MarkerNotFound));
    } else {
        let rest = reads.drop_first();
        let m2 = supply_model(m, reads[0]);
        assert(find(reads[0], header_marker()) == None::<int>);
        if reads[0].len() == 0 {
            assert(run(m2, rest) == Err::<Seq<u8>, IngestError>(IngestError::MarkerNotFound));
        } else {
            assert forall|i: int| 0 <= i < rest.len() implies find(#[trigger] rest[i], header_marker()) == None::<int> by {
                assert(rest[i] == reads[i + 1]);
            }
            lemma_missing_header(m2, rest);
        }
    }
}

/// Once the header block is read, where the window and all later reads hold
/// fewer bytes than are still owed, the request fails with `TruncatedBody`.
pub proof fn lemma_truncated(m: Model, reads: Seq<Seq<u8>>)
    requires
        m.phase == Phase::StreamBody,
        m.remaining > m.window.len() + concat(reads).len(),
    ensures
        run(m, reads) == Err::<Seq<u8>, IngestError>(IngestError::TruncatedBody),
    decreases reads.len(), m.window.len(),
{
    if m.window.len() > 0 {
        let (next, effect) = step_model(m);
        assert(next.window =~= Seq::<u8>::empty());
        lemma_truncated(next, reads);
    } else if reads.len() == 0 {
        let m2 = supply_model(m, Seq::empty());
        assert(run(m2, reads) == Err::<Seq<u8>, IngestError>(IngestError::TruncatedBody));
    } else {
        let rest = reads.drop_first();
        let m2 = supply_model(m, reads[0]);
        if reads[0].len() == 0 {
            assert(run(m2, rest) == Err::<Seq<u8>, IngestError>(IngestError::TruncatedBody));
        } else {
            lemma_truncated(m2, rest);
        }
    }
}

} // verus!
