//! Image commands in terminal output: finding them, and taking the images back.

use crate::text::{decimal, parse_unsigned, parsed_unsigned, push_decimal, read_utf8};
use crate::search::bytes_stand;
use std::collections::HashSet;
use vstd::prelude::*;
use vstd::slice::slice_subrange;
use vstd::std_specs::iter::IteratorSpec;
use vstd::utf8::{decode_utf8, valid_utf8};

verus! {

/// `needle` stands at `i`.
pub open spec fn stands(haystack: Seq<u8>, needle: Seq<u8>, i: int) -> bool {
    0 <= i && i + needle.len() <= haystack.len() && haystack.subrange(i, i + needle.len()) == needle
}

/// The first place from `from` on at which `needle` stands.
pub open spec fn found(haystack: Seq<u8>, needle: Seq<u8>, from: int) -> Option<int>
    decreases haystack.len() - from + 1,
{
    if from < 0 || from + needle.len() > haystack.len() {
        None
    } else if stands(haystack, needle, from) {
        Some(from)
    } else {
        found(haystack, needle, from + 1)
    }
}

proof fn lemma_found(haystack: Seq<u8>, needle: Seq<u8>, from: int)
    requires
        0 <= from,
    ensures
        found(haystack, needle, from) matches Some(at) ==> from <= at && stands(
            haystack,
            needle,
            at,
        ) && forall|k: int| from <= k < at ==> !#[trigger] stands(haystack, needle, k),
        found(haystack, needle, from) is None ==> forall|k: int|
            from <= k ==> !#[trigger] stands(haystack, needle, k),
    decreases haystack.len() - from + 1,
{
    if from + needle.len() <= haystack.len() && !stands(haystack, needle, from) {
        lemma_found(haystack, needle, from + 1);
    }
}

fn find_from(haystack: &[u8], needle: &[u8], from: usize) -> (r: Option<usize>)
    requires
        from <= haystack@.len(),
    ensures
        match (r, found(haystack@, needle@, from as int)) {
            (Some(at), Some(model)) => at == model,
            (None, None) => true,
            _ => false,
        },
        r matches Some(at) ==> from <= at && at + needle@.len() <= haystack@.len(),
{
    let mut at: usize = from;
    while needle.len() <= haystack.len() - at
        invariant
            from <= at <= haystack@.len(),
            found(haystack@, needle@, from as int) == found(haystack@, needle@, at as int),
        decreases haystack@.len() - at,
    {
        if bytes_stand(haystack, at, needle) {
            return Some(at);
        }
        if at == haystack.len() {
            assert(found(haystack@, needle@, at + 1) is None);
            return None;
        }
        at += 1;
    }
    None
}

/// The first place of some bytes; there is none for no bytes.
pub fn find_subslice(haystack: &[u8], needle: &[u8]) -> (r: Option<usize>)
    ensures
        match r {
            Some(at) => needle@.len() > 0 && stands(haystack@, needle@, at as int) && forall|k: int|
                0 <= k < at ==> !#[trigger] stands(haystack@, needle@, k),
            None => needle@.len() == 0 || forall|k: int| 0 <= k ==> !#[trigger] stands(haystack@, needle@, k),
        },
{
    if needle.len() == 0 {
        return None;
    }
    proof {
        lemma_found(haystack@, needle@, 0);
    }
    find_from(haystack, needle, 0)
}

/// The bytes that begin an image command.
pub open spec fn command_start() -> Seq<u8> {
    seq![0x1b, 0x5f, 0x47]
}

/// The bytes that end an image command.
pub open spec fn command_end() -> Seq<u8> {
    seq![0x1b, 0x5c]
}

fn start_bytes() -> (r: Vec<u8>)
    ensures
        r@ == command_start(),
{
    let r: Vec<u8> = vec![0x1b, 0x5f, 0x47];
    assert(r@ =~= command_start());
    r
}

fn end_bytes() -> (r: Vec<u8>)
    ensures
        r@ == command_end(),
{
    let r: Vec<u8> = vec![0x1b, 0x5c];
    assert(r@ =~= command_end());
    r
}

/// Whether an image command begins in some output.
pub fn contains_kitty_graphics_bytes(bytes: &[u8]) -> (r: bool)
    ensures
        r == exists|i: int| #[trigger] stands(bytes@, command_start(), i),
{
    let start = start_bytes();
    let at = find_from(bytes, start.as_slice(), 0);
    proof {
        lemma_found(bytes@, command_start(), 0);
    }
    at.is_some()
}

/// The first `;`, or the end.
pub open spec fn header_end(command: Seq<u8>, i: int) -> int
    decreases command.len() - i,
{
    if i < 0 || i >= command.len() || command[i] == 0x3b {
        i
    } else {
        header_end(command, i + 1)
    }
}

/// The end of the part that begins at `i`: the next `,`, or `end`.
pub open spec fn part_end(command: Seq<u8>, i: int, end: int) -> int
    decreases end - i,
{
    if i >= end || command[i] == 0x2c {
        i
    } else {
        part_end(command, i + 1, end)
    }
}

/// What a part says of the image: nothing, an id, or something that cannot be read at all.
pub enum PartId {
    Absent,
    Id(nat),
    Unreadable,
}

/// The id that a part names. Parts are `key=value`; the image's key is `i`.
pub open spec fn part_id(part: Seq<u8>) -> PartId {
    if part.len() < 2 || part[0] != 0x69 || part[1] != 0x3d {
        PartId::Absent
    } else {
        let value = part.skip(2);
        if !valid_utf8(value) {
            PartId::Unreadable
        } else {
            match parsed_unsigned(decode_utf8(value), u32::MAX as nat) {
                Some(id) => PartId::Id(id),
                None => PartId::Absent,
            }
        }
    }
}

/// The first id that the parts from `i` on name.
pub open spec fn named_id(command: Seq<u8>, i: int, end: int) -> Option<nat>
    decreases end - i + 1,
    when i <= end
{
    let stop = part_end(command, i, end);
    match part_id(command.subrange(i, stop)) {
        PartId::Id(id) => Some(id),
        PartId::Unreadable => None,
        PartId::Absent => if i <= stop < end {
            named_id(command, stop + 1, end)
        } else {
            None
        },
    }
}

/// The image that a command is about.
pub open spec fn command_id(command: Seq<u8>) -> Option<nat> {
    named_id(command, 0, header_end(command, 0))
}

pub open spec fn same_id(id: Option<u32>, model: Option<nat>) -> bool {
    match (id, model) {
        (Some(a), Some(b)) => a == b,
        (None, None) => true,
        _ => false,
    }
}

proof fn lemma_part_end(command: Seq<u8>, i: int, end: int)
    requires
        0 <= i <= end <= command.len(),
    ensures
        i <= part_end(command, i, end) <= end,
    decreases end - i,
{
    if i < end && command[i] != 0x2c {
        lemma_part_end(command, i + 1, end);
    }
}

enum ReadPart {
    Absent,
    Id(u32),
    Unreadable,
}

fn read_part(part: &[u8]) -> (r: ReadPart)
    ensures
        match (r, part_id(part@)) {
            (ReadPart::Absent, PartId::Absent) => true,
            (ReadPart::Id(a), PartId::Id(b)) => a == b,
            (ReadPart::Unreadable, PartId::Unreadable) => true,
            _ => false,
        },
{
    if part.len() < 2 || part[0] != 0x69 || part[1] != 0x3d {
        return ReadPart::Absent;
    }
    let value = slice_subrange(part, 2, part.len());
    assert(value@ =~= part@.skip(2));
    match read_utf8(value) {
        None => ReadPart::Unreadable,
        Some(text) => match parse_unsigned(text.as_str(), u32::MAX as u64) {
            Some(id) => ReadPart::Id(id as u32),
            None => ReadPart::Absent,
        },
    }
}

/// The image that a command is about: the first id among its keys.
pub fn kitty_graphics_command_image_id(command: &[u8]) -> (r: Option<u32>)
    ensures
        same_id(r, command_id(command@)),
{
    let mut end: usize = 0;
    while end < command.len() && command[end] != 0x3b
        invariant
            end <= command@.len(),
            header_end(command@, 0) == header_end(command@, end as int),
        decreases command@.len() - end,
    {
        end += 1;
    }
    let mut start: usize = 0;
    loop
        invariant
            start <= end <= command@.len(),
            end == header_end(command@, 0),
            command_id(command@) == named_id(command@, start as int, end as int),
        decreases end - start,
    {
        let mut stop: usize = start;
        while stop < end && command[stop] != 0x2c
            invariant
                start <= stop <= end <= command@.len(),
                part_end(command@, start as int, end as int) == part_end(
                    command@,
                    stop as int,
                    end as int,
                ),
            decreases end - stop,
        {
            stop += 1;
        }
        let part = slice_subrange(command, start, stop);
        match read_part(part) {
            ReadPart::Id(id) => return Some(id),
            ReadPart::Unreadable => return None,
            ReadPart::Absent => {},
        }
        if stop >= end {
            return None;
        }
        start = stop + 1;
    }
}

/// The images that the commands from `from` on are about.
pub open spec fn ids_from(bytes: Seq<u8>, from: int) -> Seq<nat>
    decreases bytes.len() - from,
    when 0 <= from
{
    match found(bytes, command_start(), from) {
        Some(start) if from <= start && start + 3 <= bytes.len() => match found(
            bytes,
            command_end(),
            start + 3,
        ) {
            Some(end) if start + 3 <= end && end + 2 <= bytes.len() => {
                let rest = ids_from(bytes, end + 2);
                match command_id(bytes.subrange(start + 3, end)) {
                    Some(id) => seq![id] + rest,
                    None => rest,
                }
            },
            _ => Seq::empty(),
        },
        _ => Seq::empty(),
    }
}

pub open spec fn numbers(ids: Seq<u32>) -> Seq<nat> {
    Seq::new(ids.len(), |i: int| ids[i] as nat)
}

/// The images that some output's commands are about, in order.
pub fn kitty_graphics_image_ids(bytes: &[u8]) -> (r: Vec<u32>)
    ensures
        numbers(r@) == ids_from(bytes@, 0),
{
    let start_mark = start_bytes();
    let end_mark = end_bytes();
    let mut ids: Vec<u32> = Vec::new();
    let mut index: usize = 0;
    let ghost all = ids_from(bytes@, 0);
    let total: usize = bytes.len();
    assert(numbers(ids@) + all =~= all);
    loop
        invariant
            bytes@.len() == total,
            start_mark@ == command_start(),
            end_mark@ == command_end(),
            index <= bytes@.len(),
            all == ids_from(bytes@, 0),
            numbers(ids@) + ids_from(bytes@, index as int) == all,
        decreases bytes@.len() - index,
    {
        let start = match find_from(bytes, start_mark.as_slice(), index) {
            Some(start) => start,
            None => {
                assert(numbers(ids@) + Seq::<nat>::empty() =~= numbers(ids@));
                return ids;
            },
        };
        assert(start + start_mark@.len() <= total);
        let begin: usize = start + 3;
        let end = match find_from(bytes, end_mark.as_slice(), begin) {
            Some(end) => end,
            None => {
                assert(numbers(ids@) + Seq::<nat>::empty() =~= numbers(ids@));
                return ids;
            },
        };
        assert(end + end_mark@.len() <= total);
        let command = slice_subrange(bytes, begin, end);
        let ghost rest = ids_from(bytes@, end + 2);
        let ghost before = numbers(ids@);
        if let Some(id) = kitty_graphics_command_image_id(command) {
            ids.push(id);
            assert(numbers(ids@) =~= before.push(id as nat));
            assert(before.push(id as nat) + rest =~= before + (seq![id as nat] + rest));
        }
        index = end + 2;
    }
}

/// The images that the terminal was given and that are to be taken back.
#[derive(Debug, PartialEq, Eq)]
pub struct ReceivedGraphics {
    pub ids: HashSet<u32>,
}

/// The command that takes an image back, and no other.
pub open spec fn delete_command(id: nat) -> Seq<char> {
    "\x1b_Ga=d,d=I,i="@ + decimal(id) + ",q=2;\x1b\\"@
}

pub open spec fn delete_commands(ids: Seq<u32>) -> Seq<char>
    decreases ids.len(),
{
    if ids.len() == 0 {
        Seq::empty()
    } else {
        delete_commands(ids.drop_last()) + delete_command(ids.last() as nat)
    }
}

/// A text that takes back each of the images once, in some order, and does nothing else.
pub open spec fn takes_back(text: Seq<char>, ids: Set<u32>) -> bool {
    exists|order: Seq<u32>|
        order.no_duplicates() && order.to_set() == ids && text == #[trigger] delete_commands(order)
}

impl ReceivedGraphics {
    pub fn new() -> (r: Self)
        ensures
            r.ids@ == Set::<u32>::empty(),
    {
        ReceivedGraphics { ids: HashSet::new() }
    }

    /// Notes the images that some output gives to the terminal.
    pub fn record_received_kitty_graphics(&mut self, bytes: &[u8])
        ensures
            forall|id: u32|
                #[trigger] final(self).ids@.contains(id) == (old(self).ids@.contains(id)
                    || ids_from(bytes@, 0).contains(id as nat)),
    {
        broadcast use vstd::std_specs::hash::group_hash_axioms;

        let ids = kitty_graphics_image_ids(bytes);
        let mut i: usize = 0;
        assert(self.ids@ =~= self.ids@.union(ids@.take(0).to_set()));
        while i < ids.len()
            invariant
                i <= ids@.len(),
                self.ids@ == old(self).ids@.union(ids@.take(i as int).to_set()),
            decreases ids@.len() - i,
        {
            let id = ids[i];
            self.ids.insert(id);
            proof {
                let done = ids@.take(i as int);
                assert(ids@.take(i + 1) =~= done.push(id));
                assert(done.push(id)[done.len() as int] == id);
                assert forall|other: u32| done.push(id).contains(other) == (done.contains(other)
                    || other == id) by {
                    if done.contains(other) {
                        let k = choose|k: int| 0 <= k < done.len() && done[k] == other;
                        assert(done.push(id)[k] == other);
                    }
                }
                assert(self.ids@ =~= old(self).ids@.union(ids@.take(i + 1).to_set()));
            }
            i += 1;
        }
        proof {
            assert(ids@.take(i as int) =~= ids@);
            assert forall|id: u32|
                #[trigger] self.ids@.contains(id) == (old(self).ids@.contains(id) || ids_from(
                    bytes@,
                    0,
                ).contains(id as nat)) by {
                lemma_numbers(ids@, id);
            }
        }
    }

    /// The commands that take all the images back. There are none afterwards.
    pub fn clear_received_kitty_graphics(&mut self) -> (r: String)
        ensures
            takes_back(r@, old(self).ids@),
            final(self).ids@ == Set::<u32>::empty(),
    {
        broadcast use vstd::std_specs::hash::group_hash_axioms;

        let mut text = String::new();
        let ghost order = self.ids.iter().remaining().unref();
        assert(order.take(0) =~= Seq::<u32>::empty());
        for id in walk: self.ids.iter()
            invariant
                order == walk.seq().unref(),
                text@ == delete_commands(order.take(walk.index())),
        {
            let ghost before = text@;
            text.append("\x1b_Ga=d,d=I,i=");
            push_decimal(&mut text, *id as u64);
            text.append(",q=2;\x1b\\");
            proof {
                let next = order.take(walk.index() + 1);
                assert(text@ =~= before + delete_command(*id as nat));
                assert(next.drop_last() =~= order.take(walk.index()));
                assert(next.last() == *id);
            }
        }
        assert(order.take(order.len() as int) =~= order);
        self.ids.clear();
        text
    }
}

proof fn lemma_numbers(ids: Seq<u32>, id: u32)
    ensures
        ids.contains(id) == numbers(ids).contains(id as nat),
{
    if ids.contains(id) {
        let k = choose|k: int| 0 <= k < ids.len() && ids[k] == id;
        assert(numbers(ids)[k] == id as nat);
    }
    if numbers(ids).contains(id as nat) {
        let k = choose|k: int| 0 <= k < numbers(ids).len() && numbers(ids)[k] == id as nat;
        assert(ids[k] == id);
    }
}

/// A frame and its images: the images follow the frame, with the cursor saved around them.
pub open spec fn framed(encoded: Seq<u8>, graphics: Seq<u8>) -> Seq<u8> {
    if graphics.len() == 0 {
        encoded
    } else {
        encoded + seq![0x1bu8, 0x37u8] + graphics + seq![0x1bu8, 0x38u8]
    }
}

/// The bytes of a frame and its images.
pub fn encoded_frame_with_graphics(encoded: &[u8], graphics: &[u8]) -> (r: Vec<u8>)
    ensures
        r@ == framed(encoded@, graphics@),
{
    let mut out: Vec<u8> = Vec::new();
    push_bytes(&mut out, encoded);
    assert(out@ =~= encoded@);
    if graphics.len() > 0 {
        out.push(0x1b);
        out.push(0x37);
        push_bytes(&mut out, graphics);
        out.push(0x1b);
        out.push(0x38);
        assert(out@ =~= framed(encoded@, graphics@));
    }
    out
}

fn push_bytes(out: &mut Vec<u8>, bytes: &[u8])
    ensures
        final(out)@ == old(out)@ + bytes@,
{
    let mut i: usize = 0;
    assert(out@ =~= out@ + bytes@.take(0));
    while i < bytes.len()
        invariant
            i <= bytes@.len(),
            out@ == old(out)@ + bytes@.take(i as int),
        decreases bytes@.len() - i,
    {
        out.push(bytes[i]);
        i += 1;
        assert(out@ =~= old(out)@ + bytes@.take(i as int));
    }
    assert(bytes@.take(i as int) =~= bytes@);
}

proof fn lemma_each_is_named(ids: Seq<u32>, i: int)
    requires
        0 <= i < ids.len(),
    ensures
        exists|before: Seq<char>, behind: Seq<char>|
            delete_commands(ids) == #[trigger] (before + delete_command(ids[i] as nat) + behind),
    decreases ids.len(),
{
    let rest = ids.drop_last();
    let last = delete_command(ids.last() as nat);
    if i == ids.len() - 1 {
        let none = Seq::<char>::empty();
        assert(delete_commands(ids) =~= delete_commands(rest) + last + none);
    } else {
        lemma_each_is_named(rest, i);
        let (before, behind) = choose|before: Seq<char>, behind: Seq<char>|
            delete_commands(rest) == #[trigger] (before + delete_command(rest[i] as nat) + behind);
        assert(delete_commands(ids) =~= before + delete_command(ids[i] as nat) + (behind + last));
    }
}

/// Every image that the terminal was given is taken back by its own command: the command names it.
pub proof fn every_image_is_taken_back(text: Seq<char>, ids: Set<u32>, id: u32)
    requires
        takes_back(text, ids),
        ids.contains(id),
    ensures
        exists|before: Seq<char>, behind: Seq<char>|
            text == #[trigger] (before + delete_command(id as nat) + behind),
{
    let order = choose|order: Seq<u32>|
        order.no_duplicates() && order.to_set() == ids && text == #[trigger] delete_commands(order);
    assert(order.to_set().contains(id));
    let i = choose|i: int| 0 <= i < order.len() && order[i] == id;
    lemma_each_is_named(order, i);
}

/// Images follow the frame they belong to, between a saved and a restored cursor; a frame without
/// images is sent as it is.
pub proof fn images_leave_the_cursor(encoded: Seq<u8>, graphics: Seq<u8>)
    ensures
        graphics.len() == 0 ==> framed(encoded, graphics) == encoded,
        graphics.len() > 0 ==> framed(encoded, graphics) == encoded + seq![0x1bu8, '7' as u8] + graphics
            + seq![0x1bu8, '8' as u8],
{
}

/// Each image is taken back once, in the order in which they are listed.
pub proof fn images_are_taken_back_in_order(a: Seq<u32>, b: Seq<u32>, id: u32)
    ensures
        delete_commands(a + b) == delete_commands(a) + delete_commands(b),
        delete_commands(seq![id]) == "\x1b_Ga=d,d=I,i="@ + decimal(id as nat) + ",q=2;\x1b\\"@,
    decreases b.len(),
{
    reveal_with_fuel(delete_commands, 2);
    assert(seq![id].drop_last() =~= Seq::<u32>::empty());
    assert(delete_commands(seq![id]) =~= delete_command(id as nat));
    if b.len() == 0 {
        assert(a + b =~= a);
        assert(delete_commands(a) + delete_commands(b) =~= delete_commands(a));
    } else {
        images_are_taken_back_in_order(a, b.drop_last(), id);
        assert((a + b).drop_last() =~= a + b.drop_last());
        assert(delete_commands(a) + delete_commands(b) =~= delete_commands(a) + delete_commands(
            b.drop_last(),
        ) + delete_command(b.last() as nat));
    }
}

/// Output in which no image command begins, or in which one begins and does not end, names no image.
pub proof fn output_without_commands_names_no_image(bytes: Seq<u8>)
    requires
        (forall|i: int|
            #![trigger bytes[i]]
            0 <= i && i + 2 < bytes.len() ==> !(bytes[i] == 0x1b && bytes[i + 1] == 0x5f && bytes[i + 2]
                == 0x47)) || (forall|i: int|
            #![trigger bytes[i]]
            0 <= i && i + 1 < bytes.len() ==> !(bytes[i] == 0x1b && bytes[i + 1] == 0x5c)),
    ensures
        ids_from(bytes, 0) == Seq::<nat>::empty(),
{
    lemma_found(bytes, command_start(), 0);
    if let Some(at) = found(bytes, command_start(), 0) {
        let here = bytes.subrange(at, at + 3);
        assert(here[0] == bytes[at] && here[1] == bytes[at + 1] && here[2] == bytes[at + 2]);
        lemma_found(bytes, command_end(), at + 3);
        if let Some(end) = found(bytes, command_end(), at + 3) {
            let there = bytes.subrange(end, end + 2);
            assert(there[0] == bytes[end] && there[1] == bytes[end + 1]);
        }
    }
}

} // verus!
