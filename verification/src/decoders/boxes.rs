//! The box structure of a container, as a function of its bytes.
//!
//! A box starts with a big-endian size, which counts the header too, and a
//! four-byte type tag; a `uuid` box carries a sixteen-byte identifier before
//! its payload. Boxes of a few known types hold further boxes.
use vstd::prelude::*;
use crate::decoders::endian::be_u32_at;
use crate::decoders::error::Cr3Error;
use crate::decoders::tags::{
    BOX_TYPE_MDIA,
    BOX_TYPE_MINF,
    BOX_TYPE_MOOV,
    BOX_TYPE_STBL,
    BOX_TYPE_TRAK,
    BOX_TYPE_UUID,
};

verus! {

/// The header of one box.
#[derive(Debug, Clone, Copy, PartialEq, Eq)]
pub struct BoxHeader {
    /// The type tag.
    pub box_type: [u8; 4],
    /// The declared size of the box, header included.
    pub size: u32,
    /// Where the box starts in the buffer.
    pub offset: u64,
    /// Where its payload starts.
    pub data_offset: u64,
}

/// A box header as plain values.
pub struct BoxView {
    pub tag: Seq<u8>,
    pub size: int,
    pub offset: int,
    pub data_offset: int,
}

impl View for BoxHeader {
    type V = BoxView;

    open spec fn view(&self) -> BoxView {
        BoxView {
            tag: self.box_type@,
            size: self.size as int,
            offset: self.offset as int,
            data_offset: self.data_offset as int,
        }
    }
}

impl BoxView {
    /// The first position after the box.
    pub open spec fn end(self) -> int {
        self.offset + self.size
    }

    /// Whether the box is one that `bytes` can hold: it is at least a header
    /// long, it ends inside the buffer, and its payload starts after the
    /// eight bytes of the header, or after the identifier that follows them.
    pub open spec fn fits(self, bytes: Seq<u8>) -> bool {
        &&& self.tag.len() == 4
        &&& 0 <= self.offset
        &&& 8 <= self.size <= u32::MAX
        &&& self.end() <= bytes.len()
        &&& self.offset + 8 <= self.data_offset <= bytes.len()
    }

    /// Whether a search goes into the box: it is of a container type and
    /// holds more than its own header.
    pub open spec fn descends(self) -> bool {
        self.size > 8 && is_container(self.tag)
    }
}

/// Whether boxes of this type hold further boxes.
pub open spec fn is_container(tag: Seq<u8>) -> bool {
    ||| tag == BOX_TYPE_MOOV@
    ||| tag == BOX_TYPE_TRAK@
    ||| tag == BOX_TYPE_MDIA@
    ||| tag == BOX_TYPE_MINF@
    ||| tag == BOX_TYPE_STBL@
    ||| tag == BOX_TYPE_UUID@
}

/// The box that starts at `at`, or why there is none. The tests are made in
/// this order: the eight header bytes are there; the size is not the escape
/// value 1; a `uuid` box has its identifier; the size covers the header; the
/// box ends inside the buffer.
pub open spec fn box_at(bytes: Seq<u8>, at: int) -> Result<BoxView, Cr3Error> {
    if at < 0 || at + 8 > bytes.len() {
        Err(Cr3Error::TruncatedHeader)
    } else {
        let size = be_u32_at(bytes, at);
        let tag = bytes.subrange(at + 4, at + 8);
        let extended = tag == BOX_TYPE_UUID@;
        if size == 1 {
            Err(Cr3Error::UnsupportedLargeBox)
        } else if extended && at + 24 > bytes.len() {
            Err(Cr3Error::TruncatedHeader)
        } else if size < 8 {
            Err(Cr3Error::InvalidBoxSize)
        } else if at + size > bytes.len() {
            Err(Cr3Error::BoxOutOfBounds)
        } else {
            Ok(
                BoxView {
                    tag,
                    size,
                    offset: at,
                    data_offset: if extended {
                        at + 24
                    } else {
                        at + 8
                    },
                },
            )
        }
    }
}

/// A box that parses is one that the buffer can hold, and it starts where it
/// was looked for.
pub proof fn lemma_parsed_box_fits(bytes: Seq<u8>, at: int)
    requires
        box_at(bytes, at) is Ok,
    ensures
        box_at(bytes, at)->Ok_0.fits(bytes),
        box_at(bytes, at)->Ok_0.offset == at,
{
}

/// A box whose size field is below eight never parses.
pub proof fn lemma_undersized_box_never_parses(bytes: Seq<u8>, at: int)
    requires
        0 <= at,
        at + 8 <= bytes.len(),
        be_u32_at(bytes, at) < 8,
    ensures
        box_at(bytes, at) is Err,
{
}

/// A box whose size field is below eight is refused as `InvalidBoxSize`,
/// unless an earlier test refuses it: the size is the escape value 1, or the
/// box is a `uuid` box whose identifier is cut off.
pub proof fn lemma_undersized_box_is_invalid(bytes: Seq<u8>, at: int)
    requires
        0 <= at,
        at + 8 <= bytes.len(),
        be_u32_at(bytes, at) < 8,
        be_u32_at(bytes, at) != 1,
        bytes.subrange(at + 4, at + 8) == BOX_TYPE_UUID@ ==> at + 24 <= bytes.len(),
    ensures
        box_at(bytes, at) == Err::<BoxView, Cr3Error>(Cr3Error::InvalidBoxSize),
{
}

/// One step of a search: a box that was looked at, and the end of the
/// container that was being searched then, if there was one.
pub struct Visit {
    pub header: BoxView,
    pub limit: Option<int>,
}

/// The boxes that a search from `at` looks at, in order. It reads box after
/// box; it stops at the first position that holds no box, and at the first
/// box that starts at or after `limit`. After a box that it goes into, it
/// looks at what that box holds, with the end of that box as the limit, and
/// then goes on behind the box.
pub open spec fn walk(bytes: Seq<u8>, at: int, limit: Option<int>) -> Seq<Visit>
    decreases bytes.len() - at,
{
    match box_at(bytes, at) {
        Err(_) => Seq::empty(),
        Ok(header) => if limit is Some && header.offset >= limit->Some_0 {
            Seq::empty()
        } else {
            let inside = if header.descends() {
                walk(bytes, header.data_offset, Some(header.end()))
            } else {
                Seq::empty()
            };
            seq![Visit { header, limit }] + inside + walk(bytes, header.end(), limit)
        },
    }
}

/// The first box of type `tag` among `visits`.
pub open spec fn first_of(visits: Seq<Visit>, tag: Seq<u8>) -> Option<BoxView>
    decreases visits.len(),
{
    if visits.len() == 0 {
        None
    } else if visits[0].header.tag == tag {
        Some(visits[0].header)
    } else {
        first_of(visits.subrange(1, visits.len() as int), tag)
    }
}

/// The first box of a type in two runs of visits is the first in the earlier
/// run, and the first in the later run where the earlier has none.
pub proof fn lemma_first_of_concat(a: Seq<Visit>, b: Seq<Visit>, tag: Seq<u8>)
    ensures
        first_of(a + b, tag) == if first_of(a, tag) is Some {
            first_of(a, tag)
        } else {
            first_of(b, tag)
        },
    decreases a.len(),
{
    if a.len() == 0 {
        assert(a + b =~= b);
    } else {
        let rest = a.subrange(1, a.len() as int);
        assert((a + b).subrange(1, (a + b).len() as int) =~= rest + b);
        assert((a + b)[0] == a[0]);
        lemma_first_of_concat(rest, b, tag);
    }
}

/// What `first_of` finds is a visited box of the wanted type, and no box
/// visited before it has that type; it finds nothing only where no visited
/// box has the type.
pub proof fn lemma_first_of_is_first(visits: Seq<Visit>, tag: Seq<u8>)
    ensures
        match first_of(visits, tag) {
            Some(header) => exists|index: int|
                {
                    &&& 0 <= index < visits.len()
                    &&& #[trigger] visits[index].header == header
                    &&& header.tag == tag
                    &&& forall|earlier: int|
                        0 <= earlier < index ==> (#[trigger] visits[earlier]).header.tag != tag
                },
            None => forall|index: int|
                0 <= index < visits.len() ==> (#[trigger] visits[index]).header.tag != tag,
        },
    decreases visits.len(),
{
    if visits.len() == 0 {
    } else if visits[0].header.tag == tag {
        assert(visits[0].header == first_of(visits, tag)->Some_0);
    } else {
        let rest = visits.subrange(1, visits.len() as int);
        lemma_first_of_is_first(rest, tag);
        match first_of(rest, tag) {
            Some(header) => {
                let index = choose|index: int|
                    {
                        &&& 0 <= index < rest.len()
                        &&& #[trigger] rest[index].header == header
                        &&& header.tag == tag
                        &&& forall|earlier: int|
                            0 <= earlier < index ==> (#[trigger] rest[earlier]).header.tag != tag
                    };
                assert(visits[index + 1] == rest[index]);
                assert forall|earlier: int| 0 <= earlier < index + 1 implies (
                #[trigger] visits[earlier]).header.tag != tag by {
                    if earlier > 0 {
                        assert(visits[earlier] == rest[earlier - 1]);
                    }
                }
                assert(visits[index + 1].header == header);
            },
            None => {
                assert forall|index: int| 0 <= index < visits.len() implies (
                #[trigger] visits[index]).header.tag != tag by {
                    if index > 0 {
                        assert(visits[index] == rest[index - 1]);
                    }
                }
            },
        }
    }
}

/// What holds of a single visit: the box parses at its offset and lies in
/// the buffer, and it starts before the limit under which it was reached.
pub open spec fn visit_inside(bytes: Seq<u8>, visit: Visit) -> bool {
    &&& box_at(bytes, visit.header.offset) == Ok::<BoxView, Cr3Error>(visit.header)
    &&& visit.header.fits(bytes)
    &&& visit.limit matches Some(end) ==> visit.header.offset < end
}

/// A search never looks at a box that starts at or behind the end of the
/// container it is searching, however far the buffer goes on behind that
/// end; and it never looks at a box that starts before its own start.
pub proof fn lemma_walk_stays_inside(bytes: Seq<u8>, at: int, limit: Option<int>)
    ensures
        forall|index: int|
            0 <= index < walk(bytes, at, limit).len() ==> {
                &&& visit_inside(bytes, #[trigger] walk(bytes, at, limit)[index])
                &&& at <= walk(bytes, at, limit)[index].header.offset
            },
    decreases bytes.len() - at,
{
    match box_at(bytes, at) {
        Err(_) => {},
        Ok(header) => if limit is Some && header.offset >= limit->Some_0 {
        } else {
            let head = seq![Visit { header, limit }];
            let inside = if header.descends() {
                walk(bytes, header.data_offset, Some(header.end()))
            } else {
                Seq::empty()
            };
            let behind = walk(bytes, header.end(), limit);
            if header.descends() {
                lemma_walk_stays_inside(bytes, header.data_offset, Some(header.end()));
            }
            lemma_walk_stays_inside(bytes, header.end(), limit);
            let all = walk(bytes, at, limit);
            assert(all == head + inside + behind);
            assert forall|index: int| 0 <= index < all.len() implies {
                &&& visit_inside(bytes, #[trigger] all[index])
                &&& at <= all[index].header.offset
            } by {
                if index == 0 {
                    assert(all[index] == head[0]);
                } else if index < 1 + inside.len() {
                    assert(all[index] == inside[index - 1]);
                } else {
                    assert(all[index] == behind[index - 1 - inside.len()]);
                }
            }
        },
    }
}

/// What a search finds is a box that it looked at: a box of the wanted type
/// that parses where it starts, lies inside the buffer, and does not start
/// before the search did.
pub proof fn lemma_found_box_was_visited(
    bytes: Seq<u8>,
    at: int,
    limit: Option<int>,
    tag: Seq<u8>,
)
    requires
        first_of(walk(bytes, at, limit), tag) is Some,
    ensures
        ({
            let found = first_of(walk(bytes, at, limit), tag)->Some_0;
            &&& found.tag == tag
            &&& found.fits(bytes)
            &&& box_at(bytes, found.offset) == Ok::<BoxView, Cr3Error>(found)
            &&& at <= found.offset
        }),
{
    let visits = walk(bytes, at, limit);
    let found = first_of(visits, tag)->Some_0;
    lemma_first_of_is_first(visits, tag);
    lemma_walk_stays_inside(bytes, at, limit);
    let index = choose|index: int|
        {
            &&& 0 <= index < visits.len()
            &&& #[trigger] visits[index].header == found
            &&& found.tag == tag
            &&& forall|earlier: int|
                0 <= earlier < index ==> (#[trigger] visits[earlier]).header.tag != tag
        };
    assert(visit_inside(bytes, visits[index]));
}

/// Whether the visit number `parent` is the container in which the visit
/// number `index` was made: an earlier visit of a box that the search went
/// into, whose end is the limit of the later visit, and behind whose header
/// the later box starts.
pub open spec fn is_container_of(visits: Seq<Visit>, parent: int, index: int) -> bool {
    &&& 0 <= parent < index
    &&& visits[parent].header.descends()
    &&& visits[index].limit == Some(visits[parent].header.end())
    &&& visits[parent].header.data_offset <= visits[index].header.offset
}

/// The limit of every visit is the limit that the search was given, or the
/// declared end of a container that the search went into before. Together
/// with `lemma_walk_stays_inside`: a box that is looked at inside a
/// container starts between the payload and the declared end of that
/// container.
pub proof fn lemma_walk_limits_are_container_ends(bytes: Seq<u8>, at: int, limit: Option<int>)
    ensures
        forall|index: int|
            0 <= index < walk(bytes, at, limit).len() ==> {
                ||| (#[trigger] walk(bytes, at, limit)[index]).limit == limit
                ||| exists|parent: int|
                    is_container_of(walk(bytes, at, limit), parent, index)
            },
    decreases bytes.len() - at,
{
    match box_at(bytes, at) {
        Err(_) => {},
        Ok(header) => if limit is Some && header.offset >= limit->Some_0 {
        } else {
            let head = seq![Visit { header, limit }];
            let inner_limit = Some(header.end());
            let inside = if header.descends() {
                walk(bytes, header.data_offset, inner_limit)
            } else {
                Seq::empty()
            };
            let behind = walk(bytes, header.end(), limit);
            if header.descends() {
                lemma_walk_limits_are_container_ends(bytes, header.data_offset, inner_limit);
                lemma_walk_stays_inside(bytes, header.data_offset, inner_limit);
            }
            lemma_walk_limits_are_container_ends(bytes, header.end(), limit);
            let all = walk(bytes, at, limit);
            assert(all == head + inside + behind);
            assert(all[0] == head[0]);
            assert forall|index: int| 0 <= index < all.len() implies {
                ||| (#[trigger] all[index]).limit == limit
                ||| exists|parent: int| is_container_of(all, parent, index)
            } by {
                if index == 0 {
                } else if index < 1 + inside.len() {
                    let inner = index - 1;
                    assert(all[index] == inside[inner]);
                    if inside[inner].limit == inner_limit {
                        assert(is_container_of(all, 0, index));
                    } else {
                        let parent = choose|parent: int| is_container_of(inside, parent, inner);
                        assert(all[parent + 1] == inside[parent]);
                        assert(is_container_of(all, parent + 1, index));
                    }
                } else {
                    let shift = 1 + inside.len();
                    let outer = index - shift;
                    assert(all[index] == behind[outer]);
                    if behind[outer].limit != limit {
                        let parent = choose|parent: int| is_container_of(behind, parent, outer);
                        assert(all[parent + shift] == behind[parent]);
                        assert(is_container_of(all, parent + shift, index));
                    }
                }
            }
        },
    }
}

} // verus!
