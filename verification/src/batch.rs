//! Batches of tokens that are submitted to the inference context.

use vstd::prelude::*;

verus! {

/// One token of a batch: where it stands in the text, and whether the scores of what follows it
/// are wanted.
#[derive(Debug, Clone, Copy, PartialEq, Eq, Structural)]
pub struct BatchEntry {
    pub token: i32,
    pub pos: i32,
    pub logits: bool,
}

/// Why a batch cannot be made: a position is too large for the inference library.
#[derive(Debug, Clone, Copy, PartialEq, Eq, Structural)]
pub struct PositionOverflow;

/// What is told when a position is too large.
pub const POSITION_OVERFLOW: &'static str = "out of range integral type conversion attempted";

/// `pos` can be given to the inference library.
pub open spec fn fits(pos: int) -> bool {
    0 <= pos <= i32::MAX
}

/// The entry for a token at a position.
pub open spec fn entry_at(token: i32, pos: int, logits: bool) -> BatchEntry {
    BatchEntry { token, pos: pos as i32, logits }
}

/// The tokens from `from` to `to` at their positions; scores are wanted for the last token of
/// all.
pub open spec fn batch_of(tokens: Seq<i32>, from: int, to: int) -> Seq<BatchEntry> {
    Seq::new(
        (to - from) as nat,
        |k: int| entry_at(tokens[from + k], from + k, from + k == tokens.len() - 1),
    )
}

/// Law: a batch holds each token of its stretch once and in order, at the position that the token
/// has in the whole text, and scores are wanted for no token but the last of the whole text.
pub proof fn law_batch_keeps_tokens_and_positions(tokens: Seq<i32>, from: int, to: int)
    requires
        0 <= from <= to <= tokens.len(),
        fits(to - 1) || from == to,
    ensures
        batch_of(tokens, from, to).len() == to - from,
        batch_of(tokens, from, to).map_values(|e: BatchEntry| e.token) == tokens.subrange(from, to),
        forall|k: int|
            0 <= k < to - from ==> (#[trigger] batch_of(tokens, from, to)[k]).pos == from + k,
        forall|k: int|
            0 <= k < to - from ==> ((#[trigger] batch_of(tokens, from, to)[k]).logits <==> from + k
                + 1 == tokens.len()),
{
    assert(batch_of(tokens, from, to).map_values(|e: BatchEntry| e.token) =~= tokens.subrange(
        from,
        to,
    ));
}

/// Law: positions up to the largest that 31 bits hold can be given to the inference library, and
/// no others.
pub proof fn law_positions_fit_31_bits(pos: int)
    ensures
        fits(pos) <==> 0 <= pos < 0x8000_0000,
{
}

/// Make the entry for a token at a position.
pub fn entry(token: i32, pos: usize, logits: bool) -> (r: Result<BatchEntry, PositionOverflow>)
    ensures
        match r {
            Ok(e) => fits(pos as int) && e == entry_at(token, pos as int, logits),
            Err(_) => !fits(pos as int),
        },
{
    if pos > i32::MAX as usize {
        Err(PositionOverflow)
    } else {
        Ok(BatchEntry { token, pos: pos as i32, logits })
    }
}

/// Make the batch of the tokens from `from` to `to`.
pub fn tokens_batch(tokens: &Vec<i32>, from: usize, to: usize) -> (r: Result<
    Vec<BatchEntry>,
    PositionOverflow,
>)
    requires
        from < to <= tokens.len(),
    ensures
        match r {
            Ok(entries) => fits(to - 1) && entries@ == batch_of(tokens@, from as int, to as int),
            Err(_) => !fits(to - 1),
        },
{
    let mut entries: Vec<BatchEntry> = Vec::new();
    let last = tokens.len() - 1;
    let mut pos: usize = from;
    while pos < to
        invariant
            from <= pos <= to <= tokens.len(),
            last == tokens.len() - 1,
            pos > from ==> fits(pos - 1),
            entries.len() == pos - from,
            forall|k: int|
                0 <= k < pos - from ==> entries@[k] == batch_of(
                    tokens@,
                    from as int,
                    to as int,
                )[k],
        decreases to - pos,
    {
        match entry(tokens[pos], pos, pos == last) {
            Ok(e) => entries.push(e),
            Err(e) => return Err(e),
        }
        pos = pos + 1;
    }
    assert(entries@ =~= batch_of(tokens@, from as int, to as int));
    Ok(entries)
}

} // verus!
