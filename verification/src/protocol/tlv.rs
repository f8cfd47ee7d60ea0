//! Optional parameters: records of a tag, a length and that many bytes, which
//! may follow the mandatory fields of a body.

use crate::wire::{
    be16, be16_value, consumed, lemma_be16_of_value, lemma_be16_value, tail, u16_at,
    write_octets, write_u16, DecodeError, Parsed,
};
use vstd::prelude::*;
use vstd::slice::*;

verus! {

/// One optional parameter.
#[derive(Debug, Clone, PartialEq, Eq)]
pub struct TagLengthValue {
    pub tag: u16,
    pub length: u16,
    pub value: Vec<u8>,
}

/// What an optional parameter holds, as plain values.
pub struct TlvView {
    pub tag: u16,
    pub length: u16,
    pub value: Seq<u8>,
}

impl View for TagLengthValue {
    type V = TlvView;

    open spec fn view(&self) -> TlvView {
        TlvView { tag: self.tag, length: self.length, value: self.value@ }
    }
}

impl TlvView {
    /// True when `length` is the number of bytes of `value`.
    pub open spec fn wf(self) -> bool {
        self.value.len() == self.length
    }

    /// The parameter on the wire: tag, length, value.
    pub open spec fn wire(self) -> Seq<u8> {
        be16(self.tag) + be16(self.length) + self.value
    }

    /// Reads one parameter off the input. It is cut short where fewer than
    /// four bytes are there for tag and length, or fewer than the declared
    /// length behind them.
    pub open spec fn parse(input: Seq<u8>) -> Parsed<TlvView> {
        if input.len() < 4 {
            Err(DecodeError::TruncatedTlv)
        } else if input.len() - 4 < be16_value(input.subrange(2, 4)) {
            Err(DecodeError::TruncatedTlv)
        } else {
            Ok(
                (
                    TlvView {
                        tag: be16_value(input.subrange(0, 2)),
                        length: be16_value(input.subrange(2, 4)),
                        value: input.subrange(4, 4 + be16_value(input.subrange(2, 4))),
                    },
                    input.skip(4 + be16_value(input.subrange(2, 4))),
                ),
            )
        }
    }

    /// A parameter that is read leaves less input than there was, and is well
    /// formed.
    pub proof fn lemma_parse_consumes(input: Seq<u8>)
        ensures
            Self::parse(input) matches Ok((t, rest)) ==> t.wf() && rest.len() + 4 + t.length
                == input.len(),
    {
    }

    /// A parameter that is read stood at the front of the input.
    pub proof fn lemma_wire_parse(input: Seq<u8>)
        ensures
            Self::parse(input) matches Ok((t, rest)) ==> t.wf() && input == t.wire() + rest,
    {
        if let Ok((t, rest)) = Self::parse(input) {
            lemma_be16_of_value(input.subrange(0, 2));
            lemma_be16_of_value(input.subrange(2, 4));
            assert(input =~= t.wire() + rest);
        }
    }

    /// A well-formed parameter that was written is read back, and the input
    /// goes on with what stood behind it.
    pub proof fn lemma_parse_wire(self, rest: Seq<u8>)
        requires
            self.wf(),
        ensures
            Self::parse(self.wire() + rest) == Ok::<(TlvView, Seq<u8>), DecodeError>((self, rest)),
    {
        let input = self.wire() + rest;
        lemma_be16_value(self.tag);
        lemma_be16_value(self.length);
        assert(input.subrange(0, 2) =~= be16(self.tag));
        assert(input.subrange(2, 4) =~= be16(self.length));
        assert(input.subrange(4, 4 + self.length) =~= self.value);
        assert(input.skip(4 + self.length) =~= rest);
    }
}

/// The views of the parameters of a list, in its order.
pub open spec fn tlv_views(list: Seq<TagLengthValue>) -> Seq<TlvView> {
    list.map_values(|t: TagLengthValue| t@)
}

/// True when every parameter of the list is well formed.
pub open spec fn tlvs_wf(list: Seq<TlvView>) -> bool {
    forall|i: int| 0 <= i < list.len() ==> (#[trigger] list[i]).wf()
}

/// A list of parameters on the wire: one after the other, in list order.
pub open spec fn tlvs_wire(list: Seq<TlvView>) -> Seq<u8>
    decreases list.len(),
{
    if list.len() == 0 {
        Seq::empty()
    } else {
        list[0].wire() + tlvs_wire(list.drop_first())
    }
}

/// Reads parameters until the input is used up.
pub open spec fn parse_tlvs(input: Seq<u8>) -> Parsed<Seq<TlvView>>
    decreases input.len(),
{
    if input.len() == 0 {
        Ok((Seq::empty(), input))
    } else {
        match TlvView::parse(input) {
            Err(e) => Err(e),
            Ok((first, rest)) => match parse_tlvs(rest) {
                Err(e) => Err(e),
                Ok((others, rest)) => Ok((seq![first] + others, rest)),
            },
        }
    }
}

/// Writing a list with one more parameter at its end adds that parameter's
/// bytes at the end.
pub proof fn lemma_tlvs_wire_push(list: Seq<TlvView>, last: TlvView)
    ensures
        tlvs_wire(list.push(last)) == tlvs_wire(list) + last.wire(),
    decreases list.len(),
{
    if list.len() == 0 {
        assert(list.push(last).drop_first() =~= list);
        assert(tlvs_wire(list.push(last)) =~= tlvs_wire(list) + last.wire());
    } else {
        lemma_tlvs_wire_push(list.drop_first(), last);
        assert(list.push(last).drop_first() =~= list.drop_first().push(last));
        assert(tlvs_wire(list.push(last)) =~= tlvs_wire(list) + last.wire());
    }
}

/// A list of well-formed parameters that was written is read back, and
/// nothing is left of the input.
pub broadcast proof fn lemma_parse_tlvs_wire(list: Seq<TlvView>)
    requires
        tlvs_wf(list),
    ensures
        #[trigger] parse_tlvs(tlvs_wire(list)) == Ok::<(Seq<TlvView>, Seq<u8>), DecodeError>(
            (list, Seq::empty()),
        ),
    decreases list.len(),
{
    if list.len() == 0 {
        assert(list =~= Seq::empty());
    } else {
        let others = list.drop_first();
        assert(tlvs_wf(others)) by {
            assert forall|i: int| 0 <= i < others.len() implies (#[trigger] others[i]).wf() by {
                assert(others[i] == list[i + 1]);
            }
        }
        list[0].lemma_parse_wire(tlvs_wire(others));
        lemma_parse_tlvs_wire(others);
        assert(seq![list[0]] + others =~= list);
    }
}

/// A list of parameters that is read used the input up: all of them are
/// well formed, and the input was their bytes.
pub broadcast proof fn lemma_parsed_tlvs(input: Seq<u8>)
    ensures
        #![trigger parse_tlvs(input)]
        parse_tlvs(input) matches Ok((list, rest)) ==> tlvs_wf(list) && rest.len() == 0 && input
            == tlvs_wire(list),
    decreases input.len(),
{
    if let Ok((list, rest)) = parse_tlvs(input) {
        if input.len() == 0 {
            assert(input =~= tlvs_wire(list));
        } else {
            TlvView::lemma_wire_parse(input);
            let (first, middle) = TlvView::parse(input)->Ok_0;
            lemma_parsed_tlvs(middle);
            let (others, _) = parse_tlvs(middle)->Ok_0;
            assert(list.drop_first() =~= others);
            assert(input =~= tlvs_wire(list));
            assert forall|i: int| 0 <= i < list.len() implies (#[trigger] list[i]).wf() by {
                if i > 0 {
                    assert(list[i] == others[i - 1]);
                }
            }
        }
    }
}

impl TagLengthValue {
    /// True when `length` is the number of bytes of `value`.
    pub fn is_well_formed(&self) -> (b: bool)
        ensures
            b == self@.wf(),
    {
        self.value.len() == self.length as usize
    }

    /// Appends the parameter: tag, length, value.
    pub fn write(&self, buf: &mut Vec<u8>)
        ensures
            final(buf)@ == old(buf)@ + self@.wire(),
    {
        write_u16(buf, self.tag);
        write_u16(buf, self.length);
        write_octets(buf, self.value.as_slice());
        assert(buf@ =~= old(buf)@ + self@.wire());
    }

    /// Reads one parameter at `offset` and moves `offset` behind it. Where
    /// there is none to read, `offset` stays.
    pub fn read(buf: &[u8], offset: &mut usize) -> (r: Result<Self, DecodeError>)
        ensures
            match TlvView::parse(tail(buf@, *old(offset) as int)) {
                Ok((t, rest)) => {
                    &&& r matches Ok(p)
                    &&& p@ == t
                    &&& tail(buf@, *final(offset) as int) == rest
                &&& *final(offset) == *old(offset) + consumed(buf@, *old(offset) as int, rest)
                },
                Err(e) => r == Err::<Self, DecodeError>(e) && *final(offset) == *old(offset),
            },
    {
        let at = *offset;
        if at > buf.len() || buf.len() - at < 4 {
            return Err(DecodeError::TruncatedTlv);
        }
        let ghost input = tail(buf@, at as int);
        let tag = u16_at(buf, at);
        let length = u16_at(buf, at + 2);
        proof {
            assert(buf@.subrange(at as int, at + 2) =~= input.subrange(0, 2));
            assert(buf@.subrange(at + 2, at + 4) =~= input.subrange(2, 4));
        }
        let n = length as usize;
        if buf.len() - at - 4 < n {
            return Err(DecodeError::TruncatedTlv);
        }
        let value = slice_to_vec(slice_subrange(buf, at + 4, at + 4 + n));
        *offset = at + 4 + n;
        proof {
            assert(buf@.subrange(at + 4, at + 4 + n) =~= input.subrange(4, 4 + n));
            assert(buf@.skip(at + 4 + n) =~= input.skip(4 + n));
        }
        Ok(TagLengthValue { tag, length, value })
    }
}

/// True when every parameter of the list is well formed.
pub fn tlvs_are_well_formed(list: &Vec<TagLengthValue>) -> (b: bool)
    ensures
        b == tlvs_wf(tlv_views(list@)),
{
    let mut i: usize = 0;
    while i < list.len()
        invariant
            i <= list@.len(),
            forall|j: int| 0 <= j < i ==> (#[trigger] tlv_views(list@)[j]).wf(),
        decreases list@.len() - i,
    {
        if !list[i].is_well_formed() {
            assert(!tlv_views(list@)[i as int].wf());
            return false;
        }
        i += 1;
    }
    true
}

/// Appends the parameters of a list, one after the other.
pub fn write_tlvs(buf: &mut Vec<u8>, list: &Vec<TagLengthValue>)
    ensures
        final(buf)@ == old(buf)@ + tlvs_wire(tlv_views(list@)),
{
    let ghost views = tlv_views(list@);
    let mut i: usize = 0;
    assert(views.take(0) =~= Seq::empty());
    assert(buf@ =~= old(buf)@ + tlvs_wire(views.take(0)));
    while i < list.len()
        invariant
            i <= list@.len(),
            views == tlv_views(list@),
            buf@ == old(buf)@ + tlvs_wire(views.take(i as int)),
        decreases list@.len() - i,
    {
        list[i].write(buf);
        proof {
            lemma_tlvs_wire_push(views.take(i as int), views[i as int]);
            assert(views.take(i + 1) =~= views.take(i as int).push(views[i as int]));
            assert(buf@ =~= old(buf)@ + tlvs_wire(views.take(i + 1)));
        }
        i += 1;
    }
    assert(views.take(i as int) =~= views);
}

/// Reads parameters from `offset` to the end of the buffer and moves `offset`
/// there. Where one of them is cut short, `offset` stays.
pub fn read_tlvs(buf: &[u8], offset: &mut usize) -> (r: Result<Vec<TagLengthValue>, DecodeError>)
    ensures
        match parse_tlvs(tail(buf@, *old(offset) as int)) {
            Ok((list, rest)) => {
                &&& r matches Ok(v)
                &&& tlv_views(v@) == list
                &&& tail(buf@, *final(offset) as int) == rest
                &&& *final(offset) == *old(offset) + consumed(buf@, *old(offset) as int, rest)
            },
            Err(e) => {
                &&& r == Err::<Vec<TagLengthValue>, DecodeError>(e)
                &&& *final(offset) == *old(offset)
            },
        },
{
    let start = *offset;
    let ghost whole = parse_tlvs(tail(buf@, start as int));
    let mut at = start;
    let mut list: Vec<TagLengthValue> = Vec::new();
    if start > buf.len() {
        return Ok(list);
    }
    assert(tlv_views(list@) =~= Seq::empty());
    while at < buf.len()
        invariant
            *offset == start,
            at <= buf@.len(),
            whole == parse_tlvs(tail(buf@, start as int)),
            match parse_tlvs(tail(buf@, at as int)) {
                Ok((others, rest)) => whole == Ok::<(Seq<TlvView>, Seq<u8>), DecodeError>(
                    (tlv_views(list@) + others, rest),
                ),
                Err(e) => whole == Err::<(Seq<TlvView>, Seq<u8>), DecodeError>(e),
            },
        decreases buf@.len() - at,
    {
        let ghost before = at;
        let ghost seen = tlv_views(list@);
        proof {
            TlvView::lemma_parse_consumes(tail(buf@, at as int));
        }
        let parameter = TagLengthValue::read(buf, &mut at)?;
        proof {
            let rest = tail(buf@, at as int);
            if let Ok((others, _)) = parse_tlvs(rest) {
                assert(seen + (seq![parameter@] + others) =~= seen.push(parameter@) + others);
            }
        }
        list.push(parameter);
        assert(tlv_views(list@) =~= seen.push(parameter@));
    }
    proof {
        assert(tail(buf@, at as int).len() == 0);
        assert(tlv_views(list@) + Seq::<TlvView>::empty() =~= tlv_views(list@));
    }
    *offset = at;
    Ok(list)
}

} // verus!
