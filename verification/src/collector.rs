//! The text that the operands of a text-showing operator stand for.

use vstd::prelude::*;
use vstd::string::StringExecFns;
use crate::operand::Operand;

verus! {

/// The text that a byte string stands for under an encoding identifier.
pub uninterp spec fn decoded_text(encoding: Option<Seq<char>>, bytes: Seq<u8>) -> Seq<char>;

/// The characters of an encoding identifier, if there is one.
pub open spec fn encoding_view(encoding: Option<&str>) -> Option<Seq<char>> {
    match encoding {
        Some(name) => Some(name@),
        None => None,
    }
}

/// Decodes a byte string through `lopdf::Document::decode_text`.
///
/// Nothing is proved of the decoded text; the contract only gives it the name
/// `decoded_text`, a function of the encoding identifier and the bytes.
#[verifier::external_body]
pub(crate) fn decode_text(encoding: Option<&str>, bytes: &Vec<u8>) -> (text: String)
    ensures
        text@ == decoded_text(encoding_view(encoding), bytes@),
{
    lopdf::Document::decode_text(encoding, bytes)
}

/// A displacement below this many thousandths of a text-space unit is a word gap.
pub const WORD_GAP: i64 = -100;

/// The text that one operand adds to the page.
///
/// A string adds its decoded bytes. An array adds what its elements add, in
/// order, and then one space. An integer adds one space where it is below
/// `WORD_GAP`. Every other operand adds nothing.
pub open spec fn operand_text(encoding: Option<Seq<char>>, operand: Operand) -> Seq<char>
    decreases operand,
{
    match operand {
        Operand::String(bytes) => decoded_text(encoding, bytes@),
        Operand::Array(items) => operands_text(encoding, items@).push(' '),
        Operand::Integer(value) => if value < WORD_GAP {
            seq![' ']
        } else {
            Seq::empty()
        },
        _ => Seq::empty(),
    }
}

/// The text that a sequence of operands adds to the page, one after the other.
pub open spec fn operands_text(encoding: Option<Seq<char>>, operands: Seq<Operand>) -> Seq<char>
    decreases operands,
{
    if operands.len() == 0 {
        Seq::empty()
    } else {
        operands_text(encoding, operands.drop_last()) + operand_text(encoding, operands.last())
    }
}

/// A list of operands on its way through the collector, with the place of the
/// operand that is taken next.
#[derive(Clone, Copy)]
struct Frame<'a> {
    items: &'a Vec<Operand>,
    next: usize,
}

/// The text that the lists on a stack still have to give. The list on top goes
/// first. Every list but the one at the bottom is an array, which ends with a
/// space.
spec fn pending_text(encoding: Option<Seq<char>>, stack: Seq<Frame<'_>>) -> Seq<char>
    decreases stack.len(),
{
    if stack.len() == 0 {
        Seq::empty()
    } else {
        let top = stack.last();
        let closing: Seq<char> = if stack.len() > 1 {
            seq![' ']
        } else {
            Seq::empty()
        };
        operands_text(encoding, top.items@.skip(top.next as int)) + closing + pending_text(
            encoding,
            stack.drop_last(),
        )
    }
}

/// The number of steps that an operand costs the collector.
spec fn operand_weight(operand: Operand) -> nat
    decreases operand,
{
    match operand {
        Operand::Array(items) => 2 + operands_weight(items@),
        _ => 1,
    }
}

/// The number of steps that a sequence of operands costs the collector.
spec fn operands_weight(operands: Seq<Operand>) -> nat
    decreases operands,
{
    if operands.len() == 0 {
        0
    } else {
        operands_weight(operands.drop_last()) + operand_weight(operands.last())
    }
}

/// The number of steps that the lists on a stack still cost the collector.
spec fn pending_weight(stack: Seq<Frame<'_>>) -> nat
    decreases stack.len(),
{
    if stack.len() == 0 {
        0
    } else {
        let top = stack.last();
        1 + operands_weight(top.items@.skip(top.next as int)) + pending_weight(stack.drop_last())
    }
}

/// The text of a sequence of operands starts with the text of the first.
proof fn lemma_text_from_first(encoding: Option<Seq<char>>, operands: Seq<Operand>)
    requires
        operands.len() > 0,
    ensures
        operands_text(encoding, operands) == operand_text(encoding, operands[0]) + operands_text(
            encoding,
            operands.drop_first(),
        ),
    decreases operands.len(),
{
    if operands.len() == 1 {
        assert(operands.drop_last() =~= Seq::<Operand>::empty());
        assert(operands.drop_first() =~= Seq::<Operand>::empty());
        assert(operands_text(encoding, operands) =~= operand_text(encoding, operands[0])
            + operands_text(encoding, operands.drop_first()));
    } else {
        let front = operands.drop_last();
        let back = operands.drop_first();
        lemma_text_from_first(encoding, front);
        assert(front.drop_first() =~= back.drop_last());
        assert(back.last() == operands.last());
        assert(front[0] == operands[0]);
        assert(operands_text(encoding, operands) =~= operand_text(encoding, operands[0])
            + operands_text(encoding, back));
    }
}

/// The weight of a sequence of operands is that of the first and that of the rest.
proof fn lemma_weight_from_first(operands: Seq<Operand>)
    requires
        operands.len() > 0,
    ensures
        operands_weight(operands) == operand_weight(operands[0]) + operands_weight(
            operands.drop_first(),
        ),
    decreases operands.len(),
{
    if operands.len() == 1 {
        assert(operands.drop_last() =~= Seq::<Operand>::empty());
        assert(operands.drop_first() =~= Seq::<Operand>::empty());
    } else {
        let front = operands.drop_last();
        let back = operands.drop_first();
        lemma_weight_from_first(front);
        assert(front.drop_first() =~= back.drop_last());
        assert(back.last() == operands.last());
        assert(front[0] == operands[0]);
    }
}

/// Appends to `buffer` the text of `operands` under `encoding`.
///
/// Arrays inside arrays are walked with a stack of lists, so that the depth of
/// the nesting costs memory on the heap only.
pub fn collect_into<'a>(buffer: &mut String, encoding: Option<&str>, operands: &'a Vec<Operand>)
    ensures
        final(buffer)@ == old(buffer)@ + operands_text(encoding_view(encoding), operands@),
{
    let ghost code = encoding_view(encoding);
    let ghost goal = old(buffer)@ + operands_text(code, operands@);
    let mut stack: Vec<Frame<'a>> = Vec::new();
    stack.push(Frame { items: operands, next: 0 });
    proof {
        assert(stack@.drop_last() =~= Seq::<Frame<'a>>::empty());
        assert(operands@.skip(0) =~= operands@);
        assert(pending_text(code, stack@.drop_last()) =~= Seq::<char>::empty());
        assert(pending_text(code, stack@) =~= operands_text(code, operands@));
    }
    while stack.len() > 0
        invariant
            code == encoding_view(encoding),
            forall|k: int| 0 <= k < stack@.len() ==> (#[trigger] stack@[k]).next <= stack@[k].items@.len(),
            buffer@ + pending_text(code, stack@) == goal,
        decreases pending_weight(stack@),
    {
        let ghost before = buffer@;
        let ghost below = stack@.drop_last();
        let ghost closing: Seq<char> = if stack@.len() > 1 {
            seq![' ']
        } else {
            Seq::empty()
        };
        let frame = stack.pop().unwrap();
        let items = frame.items;
        let next = frame.next;
        assert(stack@ == below);
        if next < items.len() {
            let ghost rest = items@.skip(next + 1);
            proof {
                lemma_text_from_first(code, items@.skip(next as int));
                lemma_weight_from_first(items@.skip(next as int));
                assert(items@.skip(next as int).drop_first() =~= rest);
                assert(items@.skip(next as int)[0] == items@[next as int]);
            }
            stack.push(Frame { items, next: next + 1 });
            proof {
                assert(stack@.drop_last() =~= below);
                assert(pending_text(code, stack@) == operands_text(code, rest) + closing
                    + pending_text(code, below));
                assert(pending_weight(stack@) == 1 + operands_weight(rest) + pending_weight(below));
            }
            let ghost kept = stack@;
            match &items[next] {
                Operand::String(bytes) => {
                    let text = decode_text(encoding, bytes);
                    buffer.append(text.as_str());
                },
                Operand::Array(inner) => {
                    stack.push(Frame { items: inner, next: 0 });
                    proof {
                        assert(stack@.drop_last() =~= kept);
                        assert(inner@.skip(0) =~= inner@);
                        assert(pending_text(code, stack@) == operands_text(code, inner@) + seq![' ']
                            + pending_text(code, kept));
                        assert(pending_weight(stack@) == 1 + operands_weight(inner@)
                            + pending_weight(kept));
                    }
                },
                Operand::Integer(value) => {
                    if *value < WORD_GAP {
                        proof {
                            reveal_strlit(" ");
                        }
                        buffer.append(" ");
                        assert(buffer@ =~= before + seq![' ']);
                    }
                },
                _ => {},
            }
            proof {
                let added = operand_text(code, items@[next as int]);
                assert(before + (added + operands_text(code, rest) + closing + pending_text(
                    code,
                    below,
                )) =~= goal);
                assert(buffer@ + pending_text(code, stack@) =~= goal);
            }
        } else {
            proof {
                assert(items@.skip(next as int) =~= Seq::<Operand>::empty());
                assert(before + (closing + pending_text(code, below)) =~= goal);
            }
            if stack.len() > 0 {
                proof {
                    reveal_strlit(" ");
                }
                buffer.append(" ");
                assert(buffer@ =~= before + seq![' ']);
            }
            assert(buffer@ + pending_text(code, stack@) =~= goal);
        }
    }
    assert(pending_text(code, stack@) =~= Seq::<char>::empty());
    assert(buffer@ =~= goal);
}

} // verus!
