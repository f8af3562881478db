use vstd::prelude::*;
use vstd::string::StringExecFns;

use crate::errors::InvoiceError;
use crate::json::json_check;
use crate::json::json_get_str;
use crate::json::json_str_field;
use crate::json::json_valid;

verus! {

/// What a stream of chunks yields: the fully assembled answer, the first
/// chunk that was not valid JSON, or the first explicit error message.
pub enum StreamOutcome {
    Answer(Seq<char>),
    BadChunk(Seq<char>),
    ApiFailure(Seq<char>),
}

/// One received chunk applied to the answer assembled so far: a chunk
/// that is not valid JSON cuts the stream, carrying the chunk; a string
/// `response` field is appended to the answer; otherwise a string `error`
/// field cuts the stream, carrying its message; any other valid JSON
/// document is ignored.
pub open spec fn chunk_step(acc: Seq<char>, chunk: Seq<char>) -> StreamOutcome {
    if !json_valid(chunk) {
        StreamOutcome::BadChunk(chunk)
    } else if json_str_field(chunk, "response"@) is Some {
        StreamOutcome::Answer(acc + json_str_field(chunk, "response"@).unwrap())
    } else if json_str_field(chunk, "error"@) is Some {
        StreamOutcome::ApiFailure(json_str_field(chunk, "error"@).unwrap())
    } else {
        StreamOutcome::Answer(acc)
    }
}

/// The stream folded chunk by chunk from an already assembled prefix,
/// stopping at the first chunk that cuts it.
pub open spec fn assemble_from(acc: Seq<char>, chunks: Seq<Seq<char>>) -> StreamOutcome
    decreases chunks.len(),
{
    if chunks.len() == 0 {
        StreamOutcome::Answer(acc)
    } else {
        match chunk_step(acc, chunks[0]) {
            StreamOutcome::Answer(acc2) => assemble_from(acc2, chunks.drop_first()),
            cut => cut,
        }
    }
}

/// The outcome of assembling a whole stream of chunks, in arrival order.
pub open spec fn assemble_spec(chunks: Seq<Seq<char>>) -> StreamOutcome {
    assemble_from(Seq::empty(), chunks)
}

/// Applies one received chunk to the answer assembled so far, exactly as
/// [`chunk_step`] says: the grown answer, or the error that cuts the
/// stream.
pub fn accumulate_chunk(acc: String, chunk: &str) -> (r: Result<String, InvoiceError>)
    ensures
        match r {
            Ok(acc2) => chunk_step(acc@, chunk@) == StreamOutcome::Answer(acc2@),
            Err(e) => match e {
                InvoiceError::InvalidChunk(c) => c@ == chunk@ && chunk_step(acc@, chunk@)
                    == StreamOutcome::BadChunk(chunk@),
                InvoiceError::Api(m) => chunk_step(acc@, chunk@) == StreamOutcome::ApiFailure(m@),
                _ => false,
            },
        },
{
    match json_check(chunk) {
        Err(_) => {
            return Err(InvoiceError::InvalidChunk(String::from_str(chunk)));
        },
        Ok(()) => {},
    }
    match json_get_str(chunk, "response") {
        Some(text) => {
            let mut acc2 = acc;
            acc2.append(text.as_str());
            Ok(acc2)
        },
        None => match json_get_str(chunk, "error") {
            Some(msg) => Err(InvoiceError::Api(msg)),
            None => Ok(acc),
        },
    }
}

/// Assembles the whole answer from the chunks of a finished stream, in
/// arrival order, exactly as [`assemble_spec`] says.
pub fn assemble_answer(chunks: &Vec<String>) -> (r: Result<String, InvoiceError>)
    ensures
        match r {
            Ok(ans) => assemble_spec(chunks.deep_view()) == StreamOutcome::Answer(ans@),
            Err(e) => match e {
                InvoiceError::InvalidChunk(c) => assemble_spec(chunks.deep_view())
                    == StreamOutcome::BadChunk(c@),
                InvoiceError::Api(m) => assemble_spec(chunks.deep_view())
                    == StreamOutcome::ApiFailure(m@),
                _ => false,
            },
        },
{
    let ghost all = chunks.deep_view();
    let mut acc = String::new();
    let mut i: usize = 0;
    proof {
        assert(all.skip(0) =~= all);
    }
    while i < chunks.len()
        invariant
            i <= chunks@.len(),
            all == chunks.deep_view(),
            assemble_spec(all) == assemble_from(acc@, all.skip(i as int)),
        decreases chunks@.len() - i,
    {
        proof {
            assert(all.skip(i as int)[0] == chunks@[i as int]@);
            assert(all.skip(i as int).drop_first() =~= all.skip(i + 1));
        }
        match accumulate_chunk(acc, chunks[i].as_str()) {
            Ok(acc2) => {
                acc = acc2;
            },
            Err(e) => {
                return Err(e);
            },
        }
        i = i + 1;
    }
    proof {
        assert(all.skip(i as int) =~= Seq::<Seq<char>>::empty());
    }
    Ok(acc)
}

/// Whether a chunk is a response chunk: valid JSON carrying a string
/// `response` field.
pub open spec fn is_response_chunk(c: Seq<char>) -> bool {
    json_valid(c) && json_str_field(c, "response"@) is Some
}

/// The concatenation of the `response` fields of a stream of response
/// chunks, in arrival order.
pub open spec fn responses_concat(chunks: Seq<Seq<char>>) -> Seq<char>
    decreases chunks.len(),
{
    if chunks.len() == 0 {
        Seq::empty()
    } else {
        json_str_field(chunks[0], "response"@).unwrap() + responses_concat(chunks.drop_first())
    }
}

proof fn lemma_responses_assemble_from(acc: Seq<char>, chunks: Seq<Seq<char>>)
    requires
        forall|i: int| 0 <= i < chunks.len() ==> is_response_chunk(#[trigger] chunks[i]),
    ensures
        assemble_from(acc, chunks) == StreamOutcome::Answer(acc + responses_concat(chunks)),
    decreases chunks.len(),
{
    if chunks.len() == 0 {
        assert(acc + responses_concat(chunks) =~= acc);
    } else {
        assert(is_response_chunk(chunks[0]));
        let field = json_str_field(chunks[0], "response"@).unwrap();
        assert(forall|i: int|
            0 <= i < chunks.drop_first().len() ==> is_response_chunk(
                #[trigger] chunks.drop_first()[i],
            ));
        lemma_responses_assemble_from(acc + field, chunks.drop_first());
        assert((acc + field) + responses_concat(chunks.drop_first()) =~= acc + (field
            + responses_concat(chunks.drop_first())));
    }
}

/// Chunk accumulation keeps arrival order: a stream made of response
/// chunks alone assembles to exactly the concatenation of their
/// `response` fields, first to last.
pub proof fn lemma_responses_assemble(chunks: Seq<Seq<char>>)
    requires
        forall|i: int| 0 <= i < chunks.len() ==> is_response_chunk(#[trigger] chunks[i]),
    ensures
        assemble_spec(chunks) == StreamOutcome::Answer(responses_concat(chunks)),
{
    lemma_responses_assemble_from(Seq::empty(), chunks);
    assert(Seq::empty() + responses_concat(chunks) =~= responses_concat(chunks));
}

proof fn lemma_error_chunk_stops_from(acc: Seq<char>, chunks: Seq<Seq<char>>, k: int)
    requires
        0 <= k < chunks.len(),
        forall|i: int| 0 <= i < k ==> is_response_chunk(#[trigger] chunks[i]),
        json_valid(chunks[k]),
        json_str_field(chunks[k], "response"@) is None,
        json_str_field(chunks[k], "error"@) is Some,
    ensures
        assemble_from(acc, chunks) == StreamOutcome::ApiFailure(
            json_str_field(chunks[k], "error"@).unwrap(),
        ),
    decreases k,
{
    if k == 0 {
        assert(chunk_step(acc, chunks[0]) == StreamOutcome::ApiFailure(
            json_str_field(chunks[0], "error"@).unwrap(),
        ));
    } else {
        assert(is_response_chunk(chunks[0]));
        let field = json_str_field(chunks[0], "response"@).unwrap();
        assert(forall|i: int|
            0 <= i < k - 1 ==> is_response_chunk(#[trigger] chunks.drop_first()[i]));
        assert(chunks.drop_first()[k - 1] == chunks[k]);
        lemma_error_chunk_stops_from(acc + field, chunks.drop_first(), k - 1);
    }
}

/// An explicit error chunk cuts the stream immediately: when every chunk
/// before index `k` is a response chunk and chunk `k` is valid JSON with
/// no string `response` field but a string `error` field, the stream
/// fails with exactly that message, whatever chunks follow. The condition
/// on the earlier chunks is needed: an earlier invalid or error chunk
/// would cut the stream first, with its own payload.
pub proof fn lemma_error_chunk_stops(chunks: Seq<Seq<char>>, k: int)
    requires
        0 <= k < chunks.len(),
        forall|i: int| 0 <= i < k ==> is_response_chunk(#[trigger] chunks[i]),
        json_valid(chunks[k]),
        json_str_field(chunks[k], "response"@) is None,
        json_str_field(chunks[k], "error"@) is Some,
    ensures
        assemble_spec(chunks) == StreamOutcome::ApiFailure(
            json_str_field(chunks[k], "error"@).unwrap(),
        ),
{
    lemma_error_chunk_stops_from(Seq::empty(), chunks, k);
}

} // verus!
