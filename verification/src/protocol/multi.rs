//! The bodies that submit one message to several destinations, and the
//! records that their lists hold.

use crate::wire::{
    and_then, be32_signed, byte, c_text, consumed, cstring, lemma_parse_cstring,
    lemma_parse_cstring_regroup, lemma_parse_i32, lemma_parse_octets, lemma_parse_u8,
    lemma_parse_u8_regroup, lemma_parsed_cstring, lemma_parsed_i32, lemma_parsed_octets,
    lemma_parsed_u8, lemma_same_bytes_regroup, lemma_tail_start, parse_cstring, parse_i32,
    parse_octets, parse_u8, read_cstring, read_i32, read_octets, read_u8, same_bytes, tail,
    write_cstring, write_i32, write_octets, write_u8, DecodeError, Parsed,
};
use vstd::prelude::*;

verus! {

/// What a destination holds, as plain values.
pub struct DestinationAddressView {
    pub dest_addr_ton: u8,
    pub dest_addr_npi: u8,
    pub destination_addr: Seq<char>,
}

impl DestinationAddressView {
    /// A destination on the wire: its fields in this order.
    pub open spec fn wire(self) -> Seq<u8> {
        byte(self.dest_addr_ton)
            + byte(self.dest_addr_npi)
            + cstring(self.destination_addr)
    }

    /// Reads a destination off the input, field by field; the first field that
    /// cannot be read gives the error.
    #[verifier::opaque]
    pub open spec fn parse(input: Seq<u8>) -> Parsed<DestinationAddressView> {
        and_then(parse_u8(input), |dest_addr_ton: u8, input: Seq<u8>|
        and_then(parse_u8(input), |dest_addr_npi: u8, input: Seq<u8>|
        and_then(parse_cstring(input), |destination_addr: Seq<char>, input: Seq<u8>|
        Ok(
            (
                DestinationAddressView {
                    dest_addr_ton,
                    dest_addr_npi,
                    destination_addr,
                },
                input,
            ),
        ))))
    }

    /// True of a value that comes back from the wire as it went: no string holds a NUL
    /// character.
    pub open spec fn valid(self) -> bool {
        &&& c_text(self.destination_addr)
    }

    /// A valid value that was written is read back, and the input goes on with
    /// what stood behind it.
    pub proof fn lemma_parse_wire(self, rest: Seq<u8>)
        requires
            self.valid(),
        ensures
            Self::parse(self.wire() + rest) == Ok::<
                (DestinationAddressView, Seq<u8>),
                DecodeError,
            >((self, rest)),
    {
        broadcast use {lemma_parse_u8_regroup, lemma_parse_cstring, lemma_parse_u8};

        reveal(DestinationAddressView::parse);
    }

    /// A value that is read is valid, and its bytes stood at the front of the
    /// input.
    pub proof fn lemma_wire_parse(input: Seq<u8>)
        ensures
            Self::parse(input) matches Ok((value, rest)) ==> value.valid() && input
                == value.wire() + rest,
    {
        broadcast use {lemma_parsed_cstring, lemma_parsed_u8, lemma_same_bytes_regroup};

        reveal(DestinationAddressView::parse);
        if let Ok((value, rest)) = Self::parse(input) {
            assert(same_bytes(value.wire() + rest, input));
        }
    }
}

/// What the record of a failed destination holds, as plain values.
pub struct UnsuccessfulDeliveryView {
    pub dest_addr_ton: u8,
    pub dest_addr_npi: u8,
    pub destination_addr: Seq<char>,
    pub error_status_code: i32,
}

impl UnsuccessfulDeliveryView {
    /// The record of a failed destination on the wire: its fields in this order.
    pub open spec fn wire(self) -> Seq<u8> {
        byte(self.dest_addr_ton)
            + byte(self.dest_addr_npi)
            + cstring(self.destination_addr)
            + be32_signed(self.error_status_code)
    }

    /// Reads the record of a failed destination off the input, field by field; the first field that
    /// cannot be read gives the error.
    #[verifier::opaque]
    pub open spec fn parse(input: Seq<u8>) -> Parsed<UnsuccessfulDeliveryView> {
        and_then(parse_u8(input), |dest_addr_ton: u8, input: Seq<u8>|
        and_then(parse_u8(input), |dest_addr_npi: u8, input: Seq<u8>|
        and_then(parse_cstring(input), |destination_addr: Seq<char>, input: Seq<u8>|
        and_then(parse_i32(input), |error_status_code: i32, input: Seq<u8>|
        Ok(
            (
                UnsuccessfulDeliveryView {
                    dest_addr_ton,
                    dest_addr_npi,
                    destination_addr,
                    error_status_code,
                },
                input,
            ),
        )))))
    }

    /// True of a value that comes back from the wire as it went: no string holds a NUL
    /// character.
    pub open spec fn valid(self) -> bool {
        &&& c_text(self.destination_addr)
    }

    /// A valid value that was written is read back, and the input goes on with
    /// what stood behind it.
    pub proof fn lemma_parse_wire(self, rest: Seq<u8>)
        requires
            self.valid(),
        ensures
            Self::parse(self.wire() + rest) == Ok::<
                (UnsuccessfulDeliveryView, Seq<u8>),
                DecodeError,
            >((self, rest)),
    {
        broadcast use {
            lemma_parse_u8_regroup, lemma_parse_cstring, lemma_parse_u8, lemma_parse_i32,
        };

        reveal(UnsuccessfulDeliveryView::parse);
    }

    /// A value that is read is valid, and its bytes stood at the front of the
    /// input.
    pub proof fn lemma_wire_parse(input: Seq<u8>)
        ensures
            Self::parse(input) matches Ok((value, rest)) ==> value.valid() && input
                == value.wire() + rest,
    {
        broadcast use {
            lemma_parsed_cstring, lemma_parsed_u8, lemma_parsed_i32, lemma_same_bytes_regroup,
        };

        reveal(UnsuccessfulDeliveryView::parse);
        if let Ok((value, rest)) = Self::parse(input) {
            assert(same_bytes(value.wire() + rest, input));
        }
    }
}

/// One destination of a message that goes to several.
#[derive(Debug, Clone, PartialEq, Eq)]
pub struct DestinationAddress {
    pub dest_addr_ton: u8,
    pub dest_addr_npi: u8,
    pub destination_addr: String,
}

impl View for DestinationAddress {
    type V = DestinationAddressView;

    open spec fn view(&self) -> DestinationAddressView {
        DestinationAddressView {
            dest_addr_ton: self.dest_addr_ton,
            dest_addr_npi: self.dest_addr_npi,
            destination_addr: self.destination_addr@,
        }
    }
}

impl DestinationAddress {
    /// Appends the record.
    pub fn write(&self, buf: &mut Vec<u8>)
        ensures
            final(buf)@ == old(buf)@ + self@.wire(),
    {
        write_u8(buf, self.dest_addr_ton);
        write_u8(buf, self.dest_addr_npi);
        write_cstring(buf, self.destination_addr.as_str());
        assert(buf@ =~= old(buf)@ + self@.wire());
    }

    /// Reads one record at `offset` and moves `offset` behind it. Where there is
    /// none to read, `offset` stays.
    pub fn read(buf: &[u8], offset: &mut usize) -> (r: Result<Self, DecodeError>)
        ensures
            match DestinationAddressView::parse(tail(buf@, *old(offset) as int)) {
                Ok((record, rest)) => {
                    &&& r matches Ok(d)
                    &&& d@ == record
                    &&& tail(buf@, *final(offset) as int) == rest
                    &&& *final(offset) == *old(offset) + consumed(buf@, *old(offset) as int, rest)
                },
                Err(e) => r == Err::<Self, DecodeError>(e) && *final(offset) == *old(offset),
            },
    {
        proof {
            reveal(DestinationAddressView::parse);
        }
        let mut at = *offset;
        let dest_addr_ton = read_u8(buf, &mut at)?;
        let dest_addr_npi = read_u8(buf, &mut at)?;
        let destination_addr = read_cstring(buf, &mut at)?;
        *offset = at;
        Ok(DestinationAddress { dest_addr_ton, dest_addr_npi, destination_addr })
    }
}

/// A destination that a message could not be submitted to, and why.
#[derive(Debug, Clone, PartialEq, Eq)]
pub struct UnsuccessfulDelivery {
    pub dest_addr_ton: u8,
    pub dest_addr_npi: u8,
    pub destination_addr: String,
    pub error_status_code: i32,
}

impl View for UnsuccessfulDelivery {
    type V = UnsuccessfulDeliveryView;

    open spec fn view(&self) -> UnsuccessfulDeliveryView {
        UnsuccessfulDeliveryView {
            dest_addr_ton: self.dest_addr_ton,
            dest_addr_npi: self.dest_addr_npi,
            destination_addr: self.destination_addr@,
            error_status_code: self.error_status_code,
        }
    }
}

impl UnsuccessfulDelivery {
    /// Appends the record.
    pub fn write(&self, buf: &mut Vec<u8>)
        ensures
            final(buf)@ == old(buf)@ + self@.wire(),
    {
        write_u8(buf, self.dest_addr_ton);
        write_u8(buf, self.dest_addr_npi);
        write_cstring(buf, self.destination_addr.as_str());
        write_i32(buf, self.error_status_code);
        assert(buf@ =~= old(buf)@ + self@.wire());
    }

    /// Reads one record at `offset` and moves `offset` behind it. Where there is
    /// none to read, `offset` stays.
    pub fn read(buf: &[u8], offset: &mut usize) -> (r: Result<Self, DecodeError>)
        ensures
            match UnsuccessfulDeliveryView::parse(tail(buf@, *old(offset) as int)) {
                Ok((record, rest)) => {
                    &&& r matches Ok(d)
                    &&& d@ == record
                    &&& tail(buf@, *final(offset) as int) == rest
                    &&& *final(offset) == *old(offset) + consumed(buf@, *old(offset) as int, rest)
                },
                Err(e) => r == Err::<Self, DecodeError>(e) && *final(offset) == *old(offset),
            },
    {
        proof {
            reveal(UnsuccessfulDeliveryView::parse);
        }
        let mut at = *offset;
        let dest_addr_ton = read_u8(buf, &mut at)?;
        let dest_addr_npi = read_u8(buf, &mut at)?;
        let destination_addr = read_cstring(buf, &mut at)?;
        let error_status_code = read_i32(buf, &mut at)?;
        *offset = at;
        Ok(
            UnsuccessfulDelivery {
                dest_addr_ton,
                dest_addr_npi,
                destination_addr,
                error_status_code,
            },
        )
    }
}

/// The views of the destinations of a list, in its order.
pub open spec fn destinations_views(list: Seq<DestinationAddress>) -> Seq<DestinationAddressView> {
    list.map_values(|d: DestinationAddress| d@)
}

/// True when every record of the list is valid.
pub open spec fn destinations_valid(list: Seq<DestinationAddressView>) -> bool {
    forall|i: int| 0 <= i < list.len() ==> (#[trigger] list[i]).valid()
}

/// A list of destinations on the wire: one after the other, in list order.
pub open spec fn destinations_wire(list: Seq<DestinationAddressView>) -> Seq<u8>
    decreases list.len(),
{
    if list.len() == 0 {
        Seq::empty()
    } else {
        list[0].wire() + destinations_wire(list.drop_first())
    }
}

/// Reads `count` destinations off the input.
pub open spec fn parse_destinations(input: Seq<u8>, count: nat) -> Parsed<
    Seq<DestinationAddressView>,
>
    decreases count,
{
    if count == 0 {
        Ok((Seq::empty(), input))
    } else {
        match DestinationAddressView::parse(input) {
            Err(e) => Err(e),
            Ok((first, rest)) => match parse_destinations(rest, (count - 1) as nat) {
                Err(e) => Err(e),
                Ok((others, rest)) => Ok((seq![first] + others, rest)),
            },
        }
    }
}

/// Writing a list with one more record at its end adds that record's bytes at
/// the end.
pub proof fn lemma_destinations_wire_push(
    list: Seq<DestinationAddressView>,
    last: DestinationAddressView,
)
    ensures
        destinations_wire(list.push(last)) == destinations_wire(list) + last.wire(),
    decreases list.len(),
{
    if list.len() == 0 {
        assert(list.push(last).drop_first() =~= list);
        assert(destinations_wire(list.push(last)) =~= destinations_wire(list) + last.wire());
    } else {
        lemma_destinations_wire_push(list.drop_first(), last);
        assert(list.push(last).drop_first() =~= list.drop_first().push(last));
        assert(destinations_wire(list.push(last)) =~= destinations_wire(list) + last.wire());
    }
}

/// A list of valid records that was written is read back when as many
/// records are asked for as it holds, and the input goes on with what stood
/// behind it.
pub broadcast proof fn lemma_parse_destinations_wire(
    list: Seq<DestinationAddressView>,
    rest: Seq<u8>,
)
    requires
        destinations_valid(list),
    ensures
        #[trigger] parse_destinations(destinations_wire(list) + rest, list.len()) == Ok::<
            (Seq<DestinationAddressView>, Seq<u8>),
            DecodeError,
        >((list, rest)),
    decreases list.len(),
{
    if list.len() == 0 {
        assert(list =~= Seq::empty());
        assert(destinations_wire(list) + rest =~= rest);
    } else {
        let others = list.drop_first();
        assert(destinations_valid(others)) by {
            assert forall|i: int| 0 <= i < others.len() implies (#[trigger] others[i]).valid() by {
                assert(others[i] == list[i + 1]);
            }
        }
        assert(destinations_wire(list) + rest =~= list[0].wire() + (destinations_wire(others)
            + rest));
        list[0].lemma_parse_wire(destinations_wire(others) + rest);
        lemma_parse_destinations_wire(others, rest);
        assert(seq![list[0]] + others =~= list);
    }
}

/// A list of records that is read has as many records as were asked for, all
/// of them valid, and its bytes stood at the front of the input.
pub broadcast proof fn lemma_parsed_destinations(input: Seq<u8>, count: nat)
    ensures
        #![trigger parse_destinations(input, count)]
        parse_destinations(input, count) matches Ok((list, rest)) ==> {
            &&& list.len() == count
            &&& destinations_valid(list)
            &&& input == destinations_wire(list) + rest
        },
    decreases count,
{
    if let Ok((list, rest)) = parse_destinations(input, count) {
        if count == 0 {
            assert(input =~= destinations_wire(list) + rest);
        } else {
            DestinationAddressView::lemma_wire_parse(input);
            let (first, middle) = DestinationAddressView::parse(input)->Ok_0;
            lemma_parsed_destinations(middle, (count - 1) as nat);
            let (others, _) = parse_destinations(middle, (count - 1) as nat)->Ok_0;
            assert(list.drop_first() =~= others);
            assert(input =~= destinations_wire(list) + rest);
            assert forall|i: int| 0 <= i < list.len() implies (#[trigger] list[i]).valid() by {
                if i > 0 {
                    assert(list[i] == others[i - 1]);
                }
            }
        }
    }
}

/// Appends the destinations of a list, one after the other.
pub fn write_destinations(buf: &mut Vec<u8>, list: &Vec<DestinationAddress>)
    ensures
        final(buf)@ == old(buf)@ + destinations_wire(destinations_views(list@)),
{
    let ghost views = destinations_views(list@);
    let mut i: usize = 0;
    assert(views.take(0) =~= Seq::empty());
    assert(buf@ =~= old(buf)@ + destinations_wire(views.take(0)));
    while i < list.len()
        invariant
            i <= list@.len(),
            views == destinations_views(list@),
            buf@ == old(buf)@ + destinations_wire(views.take(i as int)),
        decreases list@.len() - i,
    {
        list[i].write(buf);
        proof {
            lemma_destinations_wire_push(views.take(i as int), views[i as int]);
            assert(views.take(i + 1) =~= views.take(i as int).push(views[i as int]));
            assert(buf@ =~= old(buf)@ + destinations_wire(views.take(i + 1)));
        }
        i += 1;
    }
    assert(views.take(i as int) =~= views);
}

/// Reads `count` destinations at `offset` and moves `offset` behind them. Where
/// one of them cannot be read, `offset` stays.
pub fn read_destinations(buf: &[u8], offset: &mut usize, count: u8) -> (r: Result<
    Vec<DestinationAddress>,
    DecodeError,
>)
    ensures
        match parse_destinations(tail(buf@, *old(offset) as int), count as nat) {
            Ok((list, rest)) => {
                &&& r matches Ok(v)
                &&& destinations_views(v@) == list
                &&& tail(buf@, *final(offset) as int) == rest
                &&& *final(offset) == *old(offset) + consumed(buf@, *old(offset) as int, rest)
            },
            Err(e) => {
                &&& r == Err::<Vec<DestinationAddress>, DecodeError>(e)
                &&& *final(offset) == *old(offset)
            },
        },
{
    let start = *offset;
    let ghost whole = parse_destinations(tail(buf@, start as int), count as nat);
    let mut at = start;
    let mut list: Vec<DestinationAddress> = Vec::new();
    let mut i: u8 = 0;
    let ghost none = Seq::<DestinationAddressView>::empty();
    assert(destinations_views(list@) =~= none);
    assert(none + none =~= none);
    while i < count
        invariant
            i <= count,
            *offset == start,
            whole == parse_destinations(tail(buf@, start as int), count as nat),
            at == start + consumed(buf@, start as int, tail(buf@, at as int)),
            match parse_destinations(tail(buf@, at as int), (count - i) as nat) {
                Ok((others, rest)) => whole matches Ok(all) && all == (
                    destinations_views(list@) + others,
                    rest,
                ),
                Err(e) => whole matches Err(first) && first == e,
            },
        decreases count - i,
    {
        let ghost seen = destinations_views(list@);
        let ghost left = (count - i - 1) as nat;
        let record = DestinationAddress::read(buf, &mut at)?;
        proof {
            if let Ok((others, _)) = parse_destinations(tail(buf@, at as int), left) {
                assert(seen + (seq![record@] + others) =~= seen.push(record@) + others);
            }
        }
        list.push(record);
        assert(destinations_views(list@) =~= seen.push(record@));
        i += 1;
    }
    assert(destinations_views(list@) + none =~= destinations_views(list@));
    *offset = at;
    Ok(list)
}

/// The views of the failed destinations of a list, in its order.
pub open spec fn failures_views(list: Seq<UnsuccessfulDelivery>) -> Seq<UnsuccessfulDeliveryView> {
    list.map_values(|d: UnsuccessfulDelivery| d@)
}

/// True when every record of the list is valid.
pub open spec fn failures_valid(list: Seq<UnsuccessfulDeliveryView>) -> bool {
    forall|i: int| 0 <= i < list.len() ==> (#[trigger] list[i]).valid()
}

/// A list of failed destinations on the wire: one after the other, in list order.
pub open spec fn failures_wire(list: Seq<UnsuccessfulDeliveryView>) -> Seq<u8>
    decreases list.len(),
{
    if list.len() == 0 {
        Seq::empty()
    } else {
        list[0].wire() + failures_wire(list.drop_first())
    }
}

/// Reads `count` failed destinations off the input.
pub open spec fn parse_failures(input: Seq<u8>, count: nat) -> Parsed<
    Seq<UnsuccessfulDeliveryView>,
>
    decreases count,
{
    if count == 0 {
        Ok((Seq::empty(), input))
    } else {
        match UnsuccessfulDeliveryView::parse(input) {
            Err(e) => Err(e),
            Ok((first, rest)) => match parse_failures(rest, (count - 1) as nat) {
                Err(e) => Err(e),
                Ok((others, rest)) => Ok((seq![first] + others, rest)),
            },
        }
    }
}

/// Writing a list with one more record at its end adds that record's bytes at
/// the end.
pub proof fn lemma_failures_wire_push(
    list: Seq<UnsuccessfulDeliveryView>,
    last: UnsuccessfulDeliveryView,
)
    ensures
        failures_wire(list.push(last)) == failures_wire(list) + last.wire(),
    decreases list.len(),
{
    if list.len() == 0 {
        assert(list.push(last).drop_first() =~= list);
        assert(failures_wire(list.push(last)) =~= failures_wire(list) + last.wire());
    } else {
        lemma_failures_wire_push(list.drop_first(), last);
        assert(list.push(last).drop_first() =~= list.drop_first().push(last));
        assert(failures_wire(list.push(last)) =~= failures_wire(list) + last.wire());
    }
}

/// A list of valid records that was written is read back when as many
/// records are asked for as it holds, and the input goes on with what stood
/// behind it.
pub broadcast proof fn lemma_parse_failures_wire(
    list: Seq<UnsuccessfulDeliveryView>,
    rest: Seq<u8>,
)
    requires
        failures_valid(list),
    ensures
        #[trigger] parse_failures(failures_wire(list) + rest, list.len()) == Ok::<
            (Seq<UnsuccessfulDeliveryView>, Seq<u8>),
            DecodeError,
        >((list, rest)),
    decreases list.len(),
{
    if list.len() == 0 {
        assert(list =~= Seq::empty());
        assert(failures_wire(list) + rest =~= rest);
    } else {
        let others = list.drop_first();
        assert(failures_valid(others)) by {
            assert forall|i: int| 0 <= i < others.len() implies (#[trigger] others[i]).valid() by {
                assert(others[i] == list[i + 1]);
            }
        }
        assert(failures_wire(list) + rest =~= list[0].wire() + (failures_wire(others)
            + rest));
        list[0].lemma_parse_wire(failures_wire(others) + rest);
        lemma_parse_failures_wire(others, rest);
        assert(seq![list[0]] + others =~= list);
    }
}

/// A list of records that is read has as many records as were asked for, all
/// of them valid, and its bytes stood at the front of the input.
pub broadcast proof fn lemma_parsed_failures(input: Seq<u8>, count: nat)
    ensures
        #![trigger parse_failures(input, count)]
        parse_failures(input, count) matches Ok((list, rest)) ==> {
            &&& list.len() == count
            &&& failures_valid(list)
            &&& input == failures_wire(list) + rest
        },
    decreases count,
{
    if let Ok((list, rest)) = parse_failures(input, count) {
        if count == 0 {
            assert(input =~= failures_wire(list) + rest);
        } else {
            UnsuccessfulDeliveryView::lemma_wire_parse(input);
            let (first, middle) = UnsuccessfulDeliveryView::parse(input)->Ok_0;
            lemma_parsed_failures(middle, (count - 1) as nat);
            let (others, _) = parse_failures(middle, (count - 1) as nat)->Ok_0;
            assert(list.drop_first() =~= others);
            assert(input =~= failures_wire(list) + rest);
            assert forall|i: int| 0 <= i < list.len() implies (#[trigger] list[i]).valid() by {
                if i > 0 {
                    assert(list[i] == others[i - 1]);
                }
            }
        }
    }
}

/// Appends the failed destinations of a list, one after the other.
pub fn write_failures(buf: &mut Vec<u8>, list: &Vec<UnsuccessfulDelivery>)
    ensures
        final(buf)@ == old(buf)@ + failures_wire(failures_views(list@)),
{
    let ghost views = failures_views(list@);
    let mut i: usize = 0;
    assert(views.take(0) =~= Seq::empty());
    assert(buf@ =~= old(buf)@ + failures_wire(views.take(0)));
    while i < list.len()
        invariant
            i <= list@.len(),
            views == failures_views(list@),
            buf@ == old(buf)@ + failures_wire(views.take(i as int)),
        decreases list@.len() - i,
    {
        list[i].write(buf);
        proof {
            lemma_failures_wire_push(views.take(i as int), views[i as int]);
            assert(views.take(i + 1) =~= views.take(i as int).push(views[i as int]));
            assert(buf@ =~= old(buf)@ + failures_wire(views.take(i + 1)));
        }
        i += 1;
    }
    assert(views.take(i as int) =~= views);
}

/// Reads `count` failed destinations at `offset` and moves `offset` behind them. Where
/// one of them cannot be read, `offset` stays.
pub fn read_failures(buf: &[u8], offset: &mut usize, count: u8) -> (r: Result<
    Vec<UnsuccessfulDelivery>,
    DecodeError,
>)
    ensures
        match parse_failures(tail(buf@, *old(offset) as int), count as nat) {
            Ok((list, rest)) => {
                &&& r matches Ok(v)
                &&& failures_views(v@) == list
                &&& tail(buf@, *final(offset) as int) == rest
                &&& *final(offset) == *old(offset) + consumed(buf@, *old(offset) as int, rest)
            },
            Err(e) => {
                &&& r == Err::<Vec<UnsuccessfulDelivery>, DecodeError>(e)
                &&& *final(offset) == *old(offset)
            },
        },
{
    let start = *offset;
    let ghost whole = parse_failures(tail(buf@, start as int), count as nat);
    let mut at = start;
    let mut list: Vec<UnsuccessfulDelivery> = Vec::new();
    let mut i: u8 = 0;
    let ghost none = Seq::<UnsuccessfulDeliveryView>::empty();
    assert(failures_views(list@) =~= none);
    assert(none + none =~= none);
    while i < count
        invariant
            i <= count,
            *offset == start,
            whole == parse_failures(tail(buf@, start as int), count as nat),
            at == start + consumed(buf@, start as int, tail(buf@, at as int)),
            match parse_failures(tail(buf@, at as int), (count - i) as nat) {
                Ok((others, rest)) => whole matches Ok(all) && all == (
                    failures_views(list@) + others,
                    rest,
                ),
                Err(e) => whole matches Err(first) && first == e,
            },
        decreases count - i,
    {
        let ghost seen = failures_views(list@);
        let ghost left = (count - i - 1) as nat;
        let record = UnsuccessfulDelivery::read(buf, &mut at)?;
        proof {
            if let Ok((others, _)) = parse_failures(tail(buf@, at as int), left) {
                assert(seen + (seq![record@] + others) =~= seen.push(record@) + others);
            }
        }
        list.push(record);
        assert(failures_views(list@) =~= seen.push(record@));
        i += 1;
    }
    assert(failures_views(list@) + none =~= failures_views(list@));
    *offset = at;
    Ok(list)
}

/// What a message for several destinations holds, as plain values.
pub struct SubmitMultiView {
    pub service_type: Seq<char>,
    pub source_addr_ton: u8,
    pub source_addr_npi: u8,
    pub source_addr: Seq<char>,
    pub number_of_dests: u8,
    pub dest_address: Seq<DestinationAddressView>,
    pub esm_class: u8,
    pub protocol_id: u8,
    pub priority_flag: u8,
    pub schedule_delivery_time: Seq<char>,
    pub validity_period: Seq<char>,
    pub registered_delivery: u8,
    pub replace_if_present_flag: u8,
    pub data_coding: u8,
    pub sm_default_msg_id: u8,
    pub sm_length: u8,
    pub short_message: Seq<u8>,
}

impl SubmitMultiView {
    /// True when each count is the length of what it counts.
    pub open spec fn wf(self) -> bool {
        &&& self.dest_address.len() == self.number_of_dests
        &&& self.short_message.len() == self.sm_length
    }

    /// A message for several destinations on the wire: its fields in this order.
    pub open spec fn wire(self) -> Seq<u8> {
        cstring(self.service_type)
            + byte(self.source_addr_ton)
            + byte(self.source_addr_npi)
            + cstring(self.source_addr)
            + byte(self.number_of_dests)
            + destinations_wire(self.dest_address)
            + byte(self.esm_class)
            + byte(self.protocol_id)
            + byte(self.priority_flag)
            + cstring(self.schedule_delivery_time)
            + cstring(self.validity_period)
            + byte(self.registered_delivery)
            + byte(self.replace_if_present_flag)
            + byte(self.data_coding)
            + byte(self.sm_default_msg_id)
            + byte(self.sm_length)
            + self.short_message
    }

    /// Reads a message for several destinations off the input, field by field; the first field that
    /// cannot be read gives the error.
    #[verifier::opaque]
    pub open spec fn parse(input: Seq<u8>) -> Parsed<SubmitMultiView> {
        and_then(parse_cstring(input), |service_type: Seq<char>, input: Seq<u8>|
        and_then(parse_u8(input), |source_addr_ton: u8, input: Seq<u8>|
        and_then(parse_u8(input), |source_addr_npi: u8, input: Seq<u8>|
        and_then(parse_cstring(input), |source_addr: Seq<char>, input: Seq<u8>|
        and_then(parse_u8(input), |number_of_dests: u8, input: Seq<u8>|
        and_then(parse_destinations(input, number_of_dests as nat),
            |dest_address: Seq<DestinationAddressView>, input: Seq<u8>|
        and_then(parse_u8(input), |esm_class: u8, input: Seq<u8>|
        and_then(parse_u8(input), |protocol_id: u8, input: Seq<u8>|
        and_then(parse_u8(input), |priority_flag: u8, input: Seq<u8>|
        and_then(parse_cstring(input), |schedule_delivery_time: Seq<char>, input: Seq<u8>|
        and_then(parse_cstring(input), |validity_period: Seq<char>, input: Seq<u8>|
        and_then(parse_u8(input), |registered_delivery: u8, input: Seq<u8>|
        and_then(parse_u8(input), |replace_if_present_flag: u8, input: Seq<u8>|
        and_then(parse_u8(input), |data_coding: u8, input: Seq<u8>|
        and_then(parse_u8(input), |sm_default_msg_id: u8, input: Seq<u8>|
        and_then(parse_u8(input), |sm_length: u8, input: Seq<u8>|
        and_then(parse_octets(input, sm_length as int), |short_message: Seq<u8>, input: Seq<u8>|
        Ok(
            (
                SubmitMultiView {
                    service_type,
                    source_addr_ton,
                    source_addr_npi,
                    source_addr,
                    number_of_dests,
                    dest_address,
                    esm_class,
                    protocol_id,
                    priority_flag,
                    schedule_delivery_time,
                    validity_period,
                    registered_delivery,
                    replace_if_present_flag,
                    data_coding,
                    sm_default_msg_id,
                    sm_length,
                    short_message,
                },
                input,
            ),
        ))))))))))))))))))
    }

    /// True of a value that comes back from the wire as it went: no string holds a NUL
    /// character, and every count is right.
    pub open spec fn valid(self) -> bool {
        &&& self.wf()
        &&& c_text(self.service_type)
        &&& c_text(self.source_addr)
        &&& destinations_valid(self.dest_address)
        &&& c_text(self.schedule_delivery_time)
        &&& c_text(self.validity_period)
    }

    /// A valid value that was written is read back, and the input goes on with
    /// what stood behind it.
    pub proof fn lemma_parse_wire(self, rest: Seq<u8>)
        requires
            self.valid(),
        ensures
            Self::parse(self.wire() + rest) == Ok::<(SubmitMultiView, Seq<u8>), DecodeError>(
                (self, rest),
            ),
    {
        broadcast use {
            lemma_parse_cstring_regroup, lemma_parse_cstring, lemma_parse_u8,
            lemma_parse_octets, lemma_parse_destinations_wire,
        };

        reveal(SubmitMultiView::parse);
    }

    /// A value that is read is valid, and its bytes stood at the front of the
    /// input.
    pub proof fn lemma_wire_parse(input: Seq<u8>)
        ensures
            Self::parse(input) matches Ok((value, rest)) ==> value.valid() && input
                == value.wire() + rest,
    {
        broadcast use {
            lemma_parsed_cstring, lemma_parsed_u8, lemma_parsed_octets,
            lemma_parsed_destinations, lemma_same_bytes_regroup,
        };

        reveal(SubmitMultiView::parse);
        if let Ok((value, rest)) = Self::parse(input) {
            assert(same_bytes(value.wire() + rest, input));
        }
    }
}

/// What the response to a message for several destinations holds, as plain
/// values.
pub struct SubmitMultiRespView {
    pub message_id: Seq<char>,
    pub no_unsuccess: u8,
    pub unsuccess_smes: Seq<UnsuccessfulDeliveryView>,
}

impl SubmitMultiRespView {
    /// True when each count is the length of what it counts.
    pub open spec fn wf(self) -> bool {
        &&& self.unsuccess_smes.len() == self.no_unsuccess
    }

    /// The response on the wire: its fields in this order.
    pub open spec fn wire(self) -> Seq<u8> {
        cstring(self.message_id)
            + byte(self.no_unsuccess)
            + failures_wire(self.unsuccess_smes)
    }

    /// Reads the response off the input, field by field; the first field that
    /// cannot be read gives the error.
    #[verifier::opaque]
    pub open spec fn parse(input: Seq<u8>) -> Parsed<SubmitMultiRespView> {
        and_then(parse_cstring(input), |message_id: Seq<char>, input: Seq<u8>|
        and_then(parse_u8(input), |no_unsuccess: u8, input: Seq<u8>|
        and_then(parse_failures(input, no_unsuccess as nat),
            |unsuccess_smes: Seq<UnsuccessfulDeliveryView>, input: Seq<u8>|
        Ok(
            (
                SubmitMultiRespView {
                    message_id,
                    no_unsuccess,
                    unsuccess_smes,
                },
                input,
            ),
        ))))
    }

    /// True of a value that comes back from the wire as it went: no string holds a NUL
    /// character, and every count is right.
    pub open spec fn valid(self) -> bool {
        &&& self.wf()
        &&& c_text(self.message_id)
        &&& failures_valid(self.unsuccess_smes)
    }

    /// A valid value that was written is read back, and the input goes on with
    /// what stood behind it.
    pub proof fn lemma_parse_wire(self, rest: Seq<u8>)
        requires
            self.valid(),
        ensures
            Self::parse(self.wire() + rest) == Ok::<(SubmitMultiRespView, Seq<u8>), DecodeError>(
                (self, rest),
            ),
    {
        broadcast use {
            lemma_parse_cstring_regroup, lemma_parse_cstring, lemma_parse_u8,
            lemma_parse_failures_wire,
        };

        reveal(SubmitMultiRespView::parse);
    }

    /// A value that is read is valid, and its bytes stood at the front of the
    /// input.
    pub proof fn lemma_wire_parse(input: Seq<u8>)
        ensures
            Self::parse(input) matches Ok((value, rest)) ==> value.valid() && input
                == value.wire() + rest,
    {
        broadcast use {
            lemma_parsed_cstring, lemma_parsed_u8, lemma_parsed_failures,
            lemma_same_bytes_regroup,
        };

        reveal(SubmitMultiRespView::parse);
        if let Ok((value, rest)) = Self::parse(input) {
            assert(same_bytes(value.wire() + rest, input));
        }
    }
}

/// Submits a short message to several destinations.
#[derive(Debug, Clone, PartialEq, Eq)]
pub struct SubmitMulti {
    pub service_type: String,
    pub source_addr_ton: u8,
    pub source_addr_npi: u8,
    pub source_addr: String,
    /// The number of records of `dest_address`.
    pub number_of_dests: u8,
    pub dest_address: Vec<DestinationAddress>,
    pub esm_class: u8,
    pub protocol_id: u8,
    pub priority_flag: u8,
    pub schedule_delivery_time: String,
    pub validity_period: String,
    pub registered_delivery: u8,
    pub replace_if_present_flag: u8,
    pub data_coding: u8,
    pub sm_default_msg_id: u8,
    /// The number of bytes of `short_message`.
    pub sm_length: u8,
    pub short_message: Vec<u8>,
}

impl View for SubmitMulti {
    type V = SubmitMultiView;

    open spec fn view(&self) -> SubmitMultiView {
        SubmitMultiView {
            service_type: self.service_type@,
            source_addr_ton: self.source_addr_ton,
            source_addr_npi: self.source_addr_npi,
            source_addr: self.source_addr@,
            number_of_dests: self.number_of_dests,
            dest_address: destinations_views(self.dest_address@),
            esm_class: self.esm_class,
            protocol_id: self.protocol_id,
            priority_flag: self.priority_flag,
            schedule_delivery_time: self.schedule_delivery_time@,
            validity_period: self.validity_period@,
            registered_delivery: self.registered_delivery,
            replace_if_present_flag: self.replace_if_present_flag,
            data_coding: self.data_coding,
            sm_default_msg_id: self.sm_default_msg_id,
            sm_length: self.sm_length,
            short_message: self.short_message@,
        }
    }
}

impl SubmitMulti {
    /// True when each count is the length of what it counts.
    pub fn is_well_formed(&self) -> (b: bool)
        ensures
            b == self@.wf(),
    {
        self.dest_address.len() == self.number_of_dests as usize
            && self.short_message.len() == self.sm_length as usize
    }

    /// The bytes of the body.
    pub fn encode(&self) -> (buf: Vec<u8>)
        requires
            self@.wf(),
        ensures
            buf@ == self@.wire(),
    {
        let mut buf = Vec::new();
        write_cstring(&mut buf, self.service_type.as_str());
        write_u8(&mut buf, self.source_addr_ton);
        write_u8(&mut buf, self.source_addr_npi);
        write_cstring(&mut buf, self.source_addr.as_str());
        write_u8(&mut buf, self.number_of_dests);
        write_destinations(&mut buf, &self.dest_address);
        write_u8(&mut buf, self.esm_class);
        write_u8(&mut buf, self.protocol_id);
        write_u8(&mut buf, self.priority_flag);
        write_cstring(&mut buf, self.schedule_delivery_time.as_str());
        write_cstring(&mut buf, self.validity_period.as_str());
        write_u8(&mut buf, self.registered_delivery);
        write_u8(&mut buf, self.replace_if_present_flag);
        write_u8(&mut buf, self.data_coding);
        write_u8(&mut buf, self.sm_default_msg_id);
        write_u8(&mut buf, self.sm_length);
        write_octets(&mut buf, self.short_message.as_slice());
        assert(buf@ =~= self@.wire());
        buf
    }

    /// Reads the body from the start of `buf`; bytes behind the last field are
    /// left unread.
    pub fn decode(buf: &[u8]) -> (r: Result<Self, DecodeError>)
        ensures
            match SubmitMultiView::parse(buf@) {
                Ok((body, _)) => r matches Ok(b) && b@ == body,
                Err(e) => r == Err::<Self, DecodeError>(e),
            },
    {
        broadcast use lemma_tail_start;

        proof {
            reveal(SubmitMultiView::parse);
        }
        let mut offset: usize = 0;
        let service_type = read_cstring(buf, &mut offset)?;
        let source_addr_ton = read_u8(buf, &mut offset)?;
        let source_addr_npi = read_u8(buf, &mut offset)?;
        let source_addr = read_cstring(buf, &mut offset)?;
        let number_of_dests = read_u8(buf, &mut offset)?;
        let dest_address = read_destinations(buf, &mut offset, number_of_dests)?;
        let esm_class = read_u8(buf, &mut offset)?;
        let protocol_id = read_u8(buf, &mut offset)?;
        let priority_flag = read_u8(buf, &mut offset)?;
        let schedule_delivery_time = read_cstring(buf, &mut offset)?;
        let validity_period = read_cstring(buf, &mut offset)?;
        let registered_delivery = read_u8(buf, &mut offset)?;
        let replace_if_present_flag = read_u8(buf, &mut offset)?;
        let data_coding = read_u8(buf, &mut offset)?;
        let sm_default_msg_id = read_u8(buf, &mut offset)?;
        let sm_length = read_u8(buf, &mut offset)?;
        let short_message = read_octets(buf, &mut offset, sm_length as usize)?;
        Ok(
            SubmitMulti {
                service_type,
                source_addr_ton,
                source_addr_npi,
                source_addr,
                number_of_dests,
                dest_address,
                esm_class,
                protocol_id,
                priority_flag,
                schedule_delivery_time,
                validity_period,
                registered_delivery,
                replace_if_present_flag,
                data_coding,
                sm_default_msg_id,
                sm_length,
                short_message,
            },
        )
    }
}

/// Answers a [`SubmitMulti`].
#[derive(Debug, Clone, PartialEq, Eq)]
pub struct SubmitMultiResp {
    pub message_id: String,
    /// The number of records of `unsuccess_smes`.
    pub no_unsuccess: u8,
    pub unsuccess_smes: Vec<UnsuccessfulDelivery>,
}

impl View for SubmitMultiResp {
    type V = SubmitMultiRespView;

    open spec fn view(&self) -> SubmitMultiRespView {
        SubmitMultiRespView {
            message_id: self.message_id@,
            no_unsuccess: self.no_unsuccess,
            unsuccess_smes: failures_views(self.unsuccess_smes@),
        }
    }
}

impl SubmitMultiResp {
    /// True when each count is the length of what it counts.
    pub fn is_well_formed(&self) -> (b: bool)
        ensures
            b == self@.wf(),
    {
        self.unsuccess_smes.len() == self.no_unsuccess as usize
    }

    /// The bytes of the body.
    pub fn encode(&self) -> (buf: Vec<u8>)
        requires
            self@.wf(),
        ensures
            buf@ == self@.wire(),
    {
        let mut buf = Vec::new();
        write_cstring(&mut buf, self.message_id.as_str());
        write_u8(&mut buf, self.no_unsuccess);
        write_failures(&mut buf, &self.unsuccess_smes);
        assert(buf@ =~= self@.wire());
        buf
    }

    /// Reads the body from the start of `buf`; bytes behind the last field are
    /// left unread.
    pub fn decode(buf: &[u8]) -> (r: Result<Self, DecodeError>)
        ensures
            match SubmitMultiRespView::parse(buf@) {
                Ok((body, _)) => r matches Ok(b) && b@ == body,
                Err(e) => r == Err::<Self, DecodeError>(e),
            },
    {
        broadcast use lemma_tail_start;

        proof {
            reveal(SubmitMultiRespView::parse);
        }
        let mut offset: usize = 0;
        let message_id = read_cstring(buf, &mut offset)?;
        let no_unsuccess = read_u8(buf, &mut offset)?;
        let unsuccess_smes = read_failures(buf, &mut offset, no_unsuccess)?;
        Ok(SubmitMultiResp { message_id, no_unsuccess, unsuccess_smes })
    }
}

} // verus!
