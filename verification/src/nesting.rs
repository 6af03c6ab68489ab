use vstd::prelude::*;

verus! {

/// The kinds of boxes that a reader of containers walks box by box.
#[derive(Debug, Clone, Copy, PartialEq, Eq, Structural)]
pub enum Container {
    Moov,
    Trak,
    Mdia,
    Minf,
    Dinf,
    Dref,
    Stbl,
    Mvex,
    Moof,
    Traf,
    Udta,
    Meta,
    Ilst,
    Item,
    /// A metadata box under another handler than that of metadata lists.
    Raw,
}

/// The type of a movie box.
pub const MOOV: u32 = 0x6d6f_6f76;

/// The type of a track box.
pub const TRAK: u32 = 0x7472_616b;

/// The type of a media box.
pub const MDIA: u32 = 0x6d64_6961;

/// The type of a media information box.
pub const MINF: u32 = 0x6d69_6e66;

/// The type of a data information box.
pub const DINF: u32 = 0x6469_6e66;

/// The type of a data reference box.
pub const DREF: u32 = 0x6472_6566;

/// The type of a sample table box.
pub const STBL: u32 = 0x7374_626c;

/// The type of a movie extends box.
pub const MVEX: u32 = 0x6d76_6578;

/// The type of a movie fragment box.
pub const MOOF: u32 = 0x6d6f_6f66;

/// The type of a track fragment box.
pub const TRAF: u32 = 0x7472_6166;

/// The type of a user data box.
pub const UDTA: u32 = 0x7564_7461;

/// The type of a metadata box.
pub const META: u32 = 0x6d65_7461;

/// The type of a metadata list box.
pub const ILST: u32 = 0x696c_7374;

/// The type of a handler box.
pub const HDLR: u32 = 0x6864_6c72;

/// The type of a data box of a metadata item.
pub const DATA: u32 = 0x6461_7461;

/// The handler of a metadata box that holds a metadata list.
pub const MDIR: u32 = 0x6d64_6972;

/// The type of an event message box.
pub const EMSG: u32 = 0x656d_7367;

/// The type of the item of a metadata list that holds a title.
pub const NAME: u32 = 0xa96e_616d;

/// The type of the item of a metadata list that holds a year.
pub const DAY: u32 = 0xa964_6179;

/// The type of the item of a metadata list that holds a poster.
pub const COVR: u32 = 0x636f_7672;

/// The type of the item of a metadata list that holds a summary.
pub const DESC: u32 = 0x6465_7363;

/// The 32-bit number that four bytes hold, the first byte counting most.
pub open spec fn be32(bytes: Seq<u8>, at: int) -> int {
    bytes[at] as int * 0x100_0000 + bytes[at + 1] as int * 0x1_0000 + bytes[at + 2] as int * 0x100
        + bytes[at + 3] as int
}

/// The 64-bit number that eight bytes hold, the first byte counting most.
pub open spec fn be64(bytes: Seq<u8>, at: int) -> int {
    be32(bytes, at) * 0x1_0000_0000 + be32(bytes, at + 4)
}

/// The kind of a box of type `code` inside a box of kind `parent`, where a
/// reader walks the inside of such a box there.
pub open spec fn child_container(parent: Container, code: int) -> Option<Container> {
    match parent {
        Container::Moov => if code == META {
            Some(Container::Meta)
        } else if code == MVEX {
            Some(Container::Mvex)
        } else if code == TRAK {
            Some(Container::Trak)
        } else if code == UDTA {
            Some(Container::Udta)
        } else {
            None
        },
        Container::Trak => if code == META {
            Some(Container::Meta)
        } else if code == MDIA {
            Some(Container::Mdia)
        } else {
            None
        },
        Container::Mdia => if code == MINF {
            Some(Container::Minf)
        } else {
            None
        },
        Container::Minf => if code == DINF {
            Some(Container::Dinf)
        } else if code == STBL {
            Some(Container::Stbl)
        } else {
            None
        },
        Container::Dinf => if code == DREF {
            Some(Container::Dref)
        } else {
            None
        },
        Container::Moof => if code == TRAF {
            Some(Container::Traf)
        } else {
            None
        },
        Container::Udta => if code == META {
            Some(Container::Meta)
        } else {
            None
        },
        Container::Meta => if code == ILST {
            Some(Container::Ilst)
        } else {
            None
        },
        Container::Ilst => if code == NAME || code == DAY || code == COVR || code == DESC {
            Some(Container::Item)
        } else {
            None
        },
        Container::Dref
        | Container::Stbl
        | Container::Mvex
        | Container::Traf
        | Container::Item
        | Container::Raw => None,
    }
}

/// Where the boxes inside a box of the given kind start, for a box at `at`
/// with the given size; nothing where the box is too short to tell.
///
/// A data reference box holds a version, flags and a count before its
/// boxes. A metadata box holds a version and flags of zero before its
/// boxes, or starts with a handler box at once.
pub open spec fn inside(bytes: Seq<u8>, at: int, size: int, kind: Container) -> Option<int> {
    match kind {
        Container::Dref => if size >= 16 {
            Some(at + 16)
        } else {
            None
        },
        Container::Meta => if size >= 12 && be32(bytes, at + 8) == 0 {
            Some(at + 12)
        } else if size >= 16 && be32(bytes, at + 12) == HDLR {
            Some(at + 8)
        } else {
            None
        },
        _ => Some(at + 8),
    }
}

/// Whether a box of type `code` and of the given size, which is walked
/// over in a box of kind `parent`, is long enough for what a reader takes
/// from it unasked: a data box of a metadata item holds a type and a
/// locale.
pub open spec fn leaf_fits(parent: Container, code: int, size: int) -> bool {
    parent == Container::Item && code == DATA ==> size >= 16
}

/// The handler that the last handler box among the boxes from `from` up to
/// `to` names, if there is such a box and it is long enough to name one.
pub open spec fn last_handler(bytes: Seq<u8>, from: int, to: int) -> Option<int>
    decreases to - from,
{
    if from + 8 > to {
        None
    } else {
        let size = be32(bytes, from);
        if size < 8 || from + size > to {
            None
        } else {
            let later = last_handler(bytes, from + size, to);
            if later is Some {
                later
            } else if be32(bytes, from + 4) == HDLR && size >= 20 {
                Some(be32(bytes, from + 16))
            } else {
                None
            }
        }
    }
}

/// The kind as which a reader walks the boxes from `start` up to `end`
/// inside a box of kind `inner`. It opens the metadata list of a metadata
/// box only under the handler of metadata lists; under another handler it
/// takes each box whole.
pub open spec fn walked_as(bytes: Seq<u8>, start: int, end: int, inner: Container) -> Container {
    if inner == Container::Meta && last_handler(bytes, start, end) != Some(MDIR as int) {
        Container::Raw
    } else {
        inner
    }
}

/// Whether the bytes from `from` up to `to` are boxes, one after the other
/// and none left over, as a reader walks them inside a box of the given
/// kind: each has a size of 8 bytes at least, in 32 bits, and ends within
/// the range; and where the reader walks the inside of a box, its inside is
/// such boxes in turn.
pub open spec fn tiles(bytes: Seq<u8>, from: int, to: int, kind: Container) -> bool
    decreases to - from,
{
    if from >= to {
        from == to
    } else if from + 8 > to {
        false
    } else {
        let size = be32(bytes, from);
        let code = be32(bytes, from + 4);
        if size < 8 || from + size > to {
            false
        } else {
            let child = match child_container(kind, code) {
                Some(inner) => match inside(bytes, from, size, inner) {
                    Some(start) => tiles(
                        bytes,
                        start,
                        from + size,
                        walked_as(bytes, start, from + size, inner),
                    ),
                    None => false,
                },
                None => leaf_fits(kind, code, size),
            };
            child && tiles(bytes, from + size, to, kind)
        }
    }
}

/// The position of the first zero byte from `from` on and before `to`, or
/// `to` where there is none.
pub open spec fn text_end(bytes: Seq<u8>, from: int, to: int) -> int
    decreases to - from,
{
    if from >= to {
        to
    } else if bytes[from] == 0 {
        from
    } else {
        text_end(bytes, from + 1, to)
    }
}

/// Whether an event message box at `at` with the given size holds all that
/// a reader takes from it before it looks at the size: a version of 0 or 1,
/// its numbers, and two texts that each end in a zero byte.
pub open spec fn message_fits(bytes: Seq<u8>, at: int, size: int) -> bool {
    let end = at + size;
    &&& size >= 12
    &&& bytes[at + 8] <= 1
    &&& {
        // The texts come first in version 0, and after 20 bytes of numbers
        // in version 1.
        let texts = if bytes[at + 8] == 0 {
            at + 12
        } else {
            at + 32
        };
        let first = text_end(bytes, texts, end);
        let second = text_end(bytes, first + 1, end);
        &&& texts <= end
        &&& first < end
        &&& second < end
        &&& (bytes[at + 8] == 0 ==> second + 1 + 16 <= end)
    }
}

/// Whether a box of the file, of type `code`, that a reader takes to start
/// at `start` and to end at `end`, is sound where the reader looks inside
/// it: the boxes of a movie box or a movie fragment box tile it, and an
/// event message box holds its texts.
pub open spec fn walked_fits(bytes: Seq<u8>, code: int, start: int, end: int) -> bool {
    &&& code == MOOV ==> tiles(bytes, start + 8, end, Container::Moov)
    &&& code == MOOF ==> tiles(bytes, start + 8, end, Container::Moof)
    &&& code == EMSG ==> message_fits(bytes, start, end - start)
}

/// Whether the bytes from `from` to the end are the boxes of a file as a
/// reader walks them. A box may reach to the end of the file with a size of
/// 0, which ends the walk. It may give its size in 64 bits after its type;
/// the reader then takes it to start with these 8 bytes. It may be cut off
/// by the end of the file, if the reader does not look inside it.
pub open spec fn file_tiles(bytes: Seq<u8>, from: int) -> bool
    decreases bytes.len() - from,
{
    if from >= bytes.len() {
        from == bytes.len()
    } else if from + 8 > bytes.len() {
        false
    } else {
        let size = be32(bytes, from);
        let code = be32(bytes, from + 4);
        let walked = code == MOOV || code == MOOF || code == EMSG;
        if size == 0 {
            true
        } else if size == 1 {
            &&& from + 16 <= bytes.len()
            &&& be64(bytes, from + 8) >= 16
            &&& if from + be64(bytes, from + 8) <= bytes.len() {
                &&& walked_fits(bytes, code, from + 8, from + be64(bytes, from + 8))
                &&& file_tiles(bytes, from + be64(bytes, from + 8))
            } else {
                !walked
            }
        } else if size < 8 {
            false
        } else if from + size > bytes.len() {
            !walked
        } else {
            &&& walked_fits(bytes, code, from, from + size)
            &&& file_tiles(bytes, from + size)
        }
    }
}

/// Whether the boxes of a file nest soundly: every box that a reader walks
/// over has a size that lets the reader go on, from the first box of the
/// file on.
pub open spec fn well_nested(bytes: Seq<u8>) -> bool {
    file_tiles(bytes, 0)
}

/// Reads a 32-bit number.
fn read_u32(bytes: &[u8], at: usize) -> (r: u32)
    requires
        at + 4 <= bytes@.len(),
    ensures
        r == be32(bytes@, at as int),
{
    (bytes[at] as u32) * 0x100_0000 + (bytes[at + 1] as u32) * 0x1_0000 + (bytes[at + 2] as u32)
        * 0x100 + (bytes[at + 3] as u32)
}

/// Reads a 64-bit number.
fn read_u64(bytes: &[u8], at: usize) -> (r: u64)
    requires
        at + 8 <= bytes@.len(),
    ensures
        r == be64(bytes@, at as int),
{
    let _ = bytes.len();
    (read_u32(bytes, at) as u64) * 0x1_0000_0000 + (read_u32(bytes, at + 4) as u64)
}

/// The kind of a box of type `code` inside a box of kind `parent`.
fn child_kind(parent: Container, code: u32) -> (r: Option<Container>)
    ensures
        r == child_container(parent, code as int),
{
    match parent {
        Container::Moov => if code == META {
            Some(Container::Meta)
        } else if code == MVEX {
            Some(Container::Mvex)
        } else if code == TRAK {
            Some(Container::Trak)
        } else if code == UDTA {
            Some(Container::Udta)
        } else {
            None
        },
        Container::Trak => if code == META {
            Some(Container::Meta)
        } else if code == MDIA {
            Some(Container::Mdia)
        } else {
            None
        },
        Container::Mdia => if code == MINF {
            Some(Container::Minf)
        } else {
            None
        },
        Container::Minf => if code == DINF {
            Some(Container::Dinf)
        } else if code == STBL {
            Some(Container::Stbl)
        } else {
            None
        },
        Container::Dinf => if code == DREF {
            Some(Container::Dref)
        } else {
            None
        },
        Container::Moof => if code == TRAF {
            Some(Container::Traf)
        } else {
            None
        },
        Container::Udta => if code == META {
            Some(Container::Meta)
        } else {
            None
        },
        Container::Meta => if code == ILST {
            Some(Container::Ilst)
        } else {
            None
        },
        Container::Ilst => if code == NAME || code == DAY || code == COVR || code == DESC {
            Some(Container::Item)
        } else {
            None
        },
        Container::Dref
        | Container::Stbl
        | Container::Mvex
        | Container::Traf
        | Container::Item
        | Container::Raw => None,
    }
}

/// Where the boxes inside a box of the given kind start.
fn inside_of(bytes: &[u8], at: usize, size: usize, kind: Container) -> (r: Option<usize>)
    requires
        size >= 8,
        at + size <= bytes@.len(),
    ensures
        r matches Some(start) ==> inside(bytes@, at as int, size as int, kind) == Some(
            start as int,
        ) && at + 8 <= start <= at + size,
        r is None ==> inside(bytes@, at as int, size as int, kind) is None,
{
    let _ = bytes.len();
    match kind {
        Container::Dref => if size >= 16 {
            Some(at + 16)
        } else {
            None
        },
        Container::Meta => if size >= 12 && read_u32(bytes, at + 8) == 0 {
            Some(at + 12)
        } else if size >= 16 && read_u32(bytes, at + 12) == HDLR {
            Some(at + 8)
        } else {
            None
        },
        _ => Some(at + 8),
    }
}

/// The handler that the last handler box among the boxes from `from` up to
/// `to` names.
fn find_handler(bytes: &[u8], from: usize, to: usize) -> (r: Option<u32>)
    requires
        from <= to <= bytes@.len(),
    ensures
        match r {
            Some(handler) => last_handler(bytes@, from as int, to as int) == Some(handler as int),
            None => last_handler(bytes@, from as int, to as int) is None,
        },
{
    let mut found: Option<u32> = None;
    let mut at: usize = from;
    while to - at >= 8
        invariant
            from <= at <= to <= bytes@.len(),
            last_handler(bytes@, from as int, to as int) == match last_handler(
                bytes@,
                at as int,
                to as int,
            ) {
                Some(h) => Some(h),
                None => match found {
                    Some(h) => Some(h as int),
                    None => None,
                },
            },
        decreases to - at,
    {
        let size = read_u32(bytes, at) as usize;
        if size < 8 || size > to - at {
            return found;
        }
        if read_u32(bytes, at + 4) == HDLR && size >= 20 {
            found = Some(read_u32(bytes, at + 16));
        }
        at = at + size;
    }
    found
}

/// Tells whether the bytes from `from` up to `to` are boxes as a reader
/// walks them inside a box of the given kind.
fn check_boxes(bytes: &[u8], from: usize, to: usize, kind: Container) -> (r: bool)
    requires
        from <= to <= bytes@.len(),
    ensures
        r == tiles(bytes@, from as int, to as int, kind),
    decreases to - from,
{
    let mut at: usize = from;
    while at < to
        invariant
            from <= at <= to <= bytes@.len(),
            tiles(bytes@, from as int, to as int, kind) == tiles(bytes@, at as int, to as int, kind),
        decreases to - at,
    {
        if to - at < 8 {
            return false;
        }
        let size = read_u32(bytes, at) as usize;
        let code = read_u32(bytes, at + 4);
        if size < 8 || size > to - at {
            return false;
        }
        let child = match child_kind(kind, code) {
            Some(inner) => match inside_of(bytes, at, size, inner) {
                Some(start) => {
                    let walked = if inner == Container::Meta && find_handler(
                        bytes,
                        start,
                        at + size,
                    ) != Some(MDIR) {
                        Container::Raw
                    } else {
                        inner
                    };
                    check_boxes(bytes, start, at + size, walked)
                },
                None => false,
            },
            None => !(kind == Container::Item && code == DATA) || size >= 16,
        };
        if !child {
            return false;
        }
        at = at + size;
    }
    true
}

/// The position of the first zero byte from `from` on and before `to`, or
/// `to` where there is none.
fn find_text_end(bytes: &[u8], from: usize, to: usize) -> (r: usize)
    requires
        from <= to <= bytes@.len(),
    ensures
        r == text_end(bytes@, from as int, to as int),
        from <= r <= to,
{
    let mut at: usize = from;
    while at < to && bytes[at] != 0
        invariant
            from <= at <= to <= bytes@.len(),
            text_end(bytes@, from as int, to as int) == text_end(bytes@, at as int, to as int),
        decreases to - at,
    {
        at = at + 1;
    }
    at
}

/// Tells whether an event message box holds all that a reader takes from
/// it before it looks at the size.
fn check_message(bytes: &[u8], at: usize, size: usize) -> (r: bool)
    requires
        size >= 8,
        at + size <= bytes@.len(),
    ensures
        r == message_fits(bytes@, at as int, size as int),
{
    let _ = bytes.len();
    if size < 12 || bytes[at + 8] > 1 {
        return false;
    }
    let end: usize = at + size;
    let early = bytes[at + 8] == 0;
    if !early && size < 32 {
        return false;
    }
    let texts: usize = if early {
        at + 12
    } else {
        at + 32
    };
    let first = find_text_end(bytes, texts, end);
    if first >= end {
        return false;
    }
    let second = find_text_end(bytes, first + 1, end);
    if second >= end {
        return false;
    }
    !early || end - second > 16
}

/// Tells whether a box of the file is sound where a reader looks inside
/// it.
fn check_walked(bytes: &[u8], code: u32, start: usize, end: usize) -> (r: bool)
    requires
        start + 8 <= end <= bytes@.len(),
    ensures
        r == walked_fits(bytes@, code as int, start as int, end as int),
{
    if code == MOOV {
        check_boxes(bytes, start + 8, end, Container::Moov)
    } else if code == MOOF {
        check_boxes(bytes, start + 8, end, Container::Moof)
    } else if code == EMSG {
        check_message(bytes, start, end - start)
    } else {
        true
    }
}

/// Tells whether the boxes of a file nest soundly.
pub fn nests(bytes: &[u8]) -> (r: bool)
    ensures
        r == well_nested(bytes@),
{
    let len: usize = bytes.len();
    let mut at: usize = 0;
    while at < len
        invariant
            len == bytes@.len(),
            0 <= at <= len,
            well_nested(bytes@) == file_tiles(bytes@, at as int),
        decreases len - at,
    {
        if len - at < 8 {
            return false;
        }
        let size = read_u32(bytes, at) as usize;
        let code = read_u32(bytes, at + 4);
        let walked = code == MOOV || code == MOOF || code == EMSG;
        if size == 0 {
            return true;
        }
        if size == 1 {
            if len - at < 16 {
                return false;
            }
            let large = read_u64(bytes, at + 8);
            if large < 16 {
                return false;
            }
            if large > (len - at) as u64 {
                return !walked;
            }
            let end: usize = at + large as usize;
            if !check_walked(bytes, code, at + 8, end) {
                return false;
            }
            at = end;
        } else if size < 8 {
            return false;
        } else if size > len - at {
            return !walked;
        } else {
            if !check_walked(bytes, code, at, at + size) {
                return false;
            }
            at = at + size;
        }
    }
    true
}

} // verus!
