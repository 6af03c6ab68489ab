use bili_remux::nesting::nests;

/// A box with the given type and payload.
fn boxed(tag: &[u8; 4], payload: &[u8]) -> Vec<u8> {
    let mut bytes = ((payload.len() + 8) as u32).to_be_bytes().to_vec();
    bytes.extend(tag);
    bytes.extend(payload);
    bytes
}

/// A box whose size field holds `size`, whatever its payload.
fn sized(size: u32, tag: &[u8; 4], payload: &[u8]) -> Vec<u8> {
    let mut bytes = size.to_be_bytes().to_vec();
    bytes.extend(tag);
    bytes.extend(payload);
    bytes
}

fn join(parts: &[Vec<u8>]) -> Vec<u8> {
    parts.concat()
}

fn file_type() -> Vec<u8> {
    boxed(b"ftyp", b"isom\0\0\x02\0isomiso2")
}

/// A movie box around the given boxes, after a file type box.
fn movie(inner: &[Vec<u8>]) -> Vec<u8> {
    join(&[file_type(), boxed(b"moov", &join(inner))])
}

fn leaf() -> Vec<u8> {
    boxed(b"mvhd", &[0; 100])
}

#[test]
fn plain_boxes_nest() {
    assert!(nests(&[]));
    assert!(nests(&file_type()));
    assert!(nests(&movie(&[])));
    assert!(nests(&movie(&[leaf(), boxed(b"free", &[])])));
    assert!(nests(&join(&[file_type(), boxed(b"mdat", &[7; 33]), boxed(b"skip", &[])])));
}

#[test]
fn a_file_ends_with_a_box() {
    assert!(!nests(&[0]));
    assert!(!nests(&[0, 0, 0, 8, b'f', b'r', b'e']));
    assert!(!nests(&join(&[file_type(), vec![0, 0, 0]])));
    assert!(!nests(&join(&[movie(&[leaf()]), vec![0; 7]])));
}

#[test]
fn a_box_holds_its_header() {
    for size in 2..8 {
        assert!(!nests(&sized(size, b"free", &[0; 8])));
        assert!(!nests(&movie(&[sized(size, b"free", &[0; 8])])));
    }
    assert!(nests(&sized(8, b"free", &[])));
}

#[test]
fn a_box_of_size_zero_ends_the_walk_of_a_file() {
    assert!(nests(&join(&[file_type(), sized(0, b"mdat", &[1, 2, 3])])));
    assert!(nests(&join(&[file_type(), sized(0, b"moov", &[1, 2, 3])])));
}

#[test]
fn a_box_of_size_zero_is_refused_inside_a_movie() {
    assert!(!nests(&movie(&[leaf(), sized(0, b"free", &[])])));
    assert!(!nests(&movie(&[sized(0, b"mvhd", &[0; 100])])));
    let track = boxed(b"trak", &join(&[boxed(b"tkhd", &[0; 84]), sized(0, b"mdia", &[])]));
    assert!(!nests(&movie(&[leaf(), track])));
}

#[test]
fn a_wide_size_is_taken_at_the_top_only() {
    let mut wide = sized(1, b"mdat", &[0, 0, 0, 0, 0, 0, 0, 20]);
    wide.extend([9, 9, 9, 9]);
    assert!(nests(&join(&[file_type(), wide.clone(), boxed(b"free", &[])])));
    assert!(!nests(&join(&[file_type(), wide.clone(), vec![0; 3]])));
    assert!(!nests(&movie(&[wide.clone()])));

    let short = sized(1, b"mdat", &[0, 0, 0, 0, 0, 0, 0, 15]);
    assert!(!nests(&short));
    assert!(!nests(&sized(1, b"mdat", &[0, 0, 0, 0, 0, 0, 0])));
    let far = sized(1, b"mdat", &[0, 0, 0, 1, 0, 0, 0, 0]);
    assert!(nests(&far));

    // A movie box with a wide size is walked from after the size.
    let mut wide_movie = sized(1, b"moov", &[0, 0, 0, 0, 0, 0, 0, 16]);
    assert!(nests(&wide_movie));
    wide_movie[4..8].copy_from_slice(b"moof");
    assert!(nests(&wide_movie));
    wide_movie[4..8].copy_from_slice(b"ftyp");
    assert!(nests(&wide_movie));
    let inner = leaf();
    let mut wide_movie = sized(1, b"moov", &((inner.len() + 16) as u64).to_be_bytes());
    wide_movie.extend(&inner);
    assert!(nests(&wide_movie));
    let bad = sized(0, b"free", &[]);
    let mut wide_movie = sized(1, b"moov", &((bad.len() + 16) as u64).to_be_bytes());
    wide_movie.extend(&bad);
    assert!(!nests(&wide_movie));
    let mut cut = sized(1, b"moov", &[0, 0, 0, 0, 0, 0, 1, 0]);
    cut.extend(leaf());
    assert!(!nests(&cut));

    let texts = b"\0\0\0\0urn\0v\0";
    let message = |numbers: usize| {
        let mut wide = sized(1, b"emsg", &((16 + texts.len() + numbers) as u64).to_be_bytes());
        wide.extend(texts);
        wide.extend(vec![7; numbers]);
        wide.extend(boxed(b"free", &[]));
        wide
    };
    assert!(nests(&message(16)));
    assert!(nests(&message(20)));
    assert!(!nests(&message(15)));
}

#[test]
fn a_cut_box_is_taken_where_it_is_not_walked() {
    assert!(nests(&join(&[file_type(), sized(1000, b"mdat", &[1, 2, 3])])));
    assert!(!nests(&join(&[file_type(), sized(1000, b"moov", &leaf())])));
    assert!(!nests(&join(&[file_type(), sized(1000, b"moof", &[])])));
    assert!(!nests(&join(&[file_type(), sized(1000, b"emsg", &[0; 40])])));
}

#[test]
fn boxes_fill_their_box() {
    let over = boxed(b"moov", &join(&[leaf(), sized(9, b"free", &[])]));
    assert!(!nests(&over));
    let under = boxed(b"moov", &join(&[leaf(), vec![0, 0, 0, 8, b'f']]));
    assert!(!nests(&under));
    let track = boxed(b"trak", &join(&[boxed(b"tkhd", &[0; 84]), sized(16, b"free", &[0; 4])]));
    assert!(!nests(&movie(&[track])));
}

#[test]
fn the_boxes_of_a_track_are_walked() {
    let table = boxed(b"stbl", &join(&[boxed(b"stsd", &[0; 8]), boxed(b"stts", &[0; 8])]));
    let reference = boxed(b"dref", &join(&[vec![0, 0, 0, 0, 0, 0, 0, 1], boxed(b"url ", &[0, 0, 0, 1])]));
    let media = |table: Vec<u8>, reference: Vec<u8>| {
        let information = boxed(b"minf", &join(&[boxed(b"dinf", &reference), table]));
        boxed(b"trak", &boxed(b"mdia", &information))
    };
    assert!(nests(&movie(&[media(table.clone(), reference.clone())])));

    let bad_table = boxed(b"stbl", &join(&[boxed(b"stsd", &[0; 8]), sized(0, b"stts", &[0; 8])]));
    assert!(!nests(&movie(&[media(bad_table, reference.clone())])));
    let short_reference = boxed(b"dref", &[0, 0, 0, 0]);
    assert!(!nests(&movie(&[media(table.clone(), short_reference)])));
    let bad_reference = boxed(b"dref", &join(&[vec![0; 8], sized(4, b"url ", &[])]));
    assert!(!nests(&movie(&[media(table.clone(), bad_reference)])));
    // Elsewhere the same boxes are passed over unopened.
    assert!(nests(&movie(&[boxed(b"free", &sized(0, b"stts", &[]))])));
    assert!(nests(&movie(&[boxed(b"stbl", &sized(0, b"stts", &[]))])));
    assert!(nests(&movie(&[boxed(b"edts", &sized(0, b"elst", &[]))])));
}

#[test]
fn movie_fragments_are_walked() {
    let run = boxed(b"traf", &join(&[boxed(b"tfhd", &[0; 8]), boxed(b"trun", &[0; 8])]));
    let fragment = boxed(b"moof", &join(&[boxed(b"mfhd", &[0; 8]), run]));
    assert!(nests(&join(&[file_type(), fragment])));
    let run = boxed(b"traf", &join(&[boxed(b"tfhd", &[0; 8]), sized(0, b"trun", &[0; 8])]));
    let fragment = boxed(b"moof", &join(&[boxed(b"mfhd", &[0; 8]), run]));
    assert!(!nests(&join(&[file_type(), fragment])));
    let extension = boxed(b"mvex", &join(&[boxed(b"trex", &[0; 24]), sized(3, b"mehd", &[])]));
    assert!(!nests(&movie(&[extension])));
}

#[test]
fn runs_are_passed_over_unopened() {
    let file = |run: Vec<u8>| {
        let fragment = boxed(b"traf", &join(&[boxed(b"tfhd", &[0; 8]), boxed(b"trun", &run)]));
        join(&[file_type(), boxed(b"moof", &join(&[boxed(b"mfhd", &[0; 8]), fragment]))])
    };
    assert!(nests(&file(vec![0, 0, 0, 0, 0, 0, 0, 88])));
    assert!(nests(&file(vec![0, 0, 0, 0, 0xff, 0xff, 0xff, 0xff])));
    assert!(nests(&file(vec![0, 0, 2, 0, 0xff, 0xff, 0xff, 0xff])));
    assert!(nests(&file(vec![])));
}

fn handler() -> Vec<u8> {
    boxed(b"hdlr", b"\0\0\0\0\0\0\0\0mdir\0\0\0\0\0\0\0\0\0\0\0\0\0")
}

#[test]
fn metadata_starts_with_a_version_or_a_handler() {
    let versioned = boxed(b"meta", &join(&[vec![0; 4], handler()]));
    assert!(nests(&movie(&[boxed(b"udta", &versioned)])));
    assert!(nests(&movie(&[versioned.clone()])));
    let bare = boxed(b"meta", &handler());
    assert!(nests(&movie(&[boxed(b"udta", &bare)])));
    let odd = boxed(b"meta", &join(&[vec![1, 0, 0, 0], handler()]));
    assert!(!nests(&movie(&[boxed(b"udta", &odd)])));
    let empty = boxed(b"meta", &[]);
    assert!(!nests(&movie(&[empty])));
    let short = boxed(b"meta", &join(&[vec![0; 4], sized(5, b"free", &[])]));
    assert!(!nests(&movie(&[boxed(b"trak", &short)])));
}

#[test]
fn metadata_lists_are_opened_under_their_handler_only() {
    let other = boxed(b"hdlr", b"\0\0\0\0\0\0\0\0abcd\0\0\0\0\0\0\0\0\0\0\0\0\0");
    let list = |data: Vec<u8>| boxed(b"ilst", &boxed(&[0xa9, b'n', b'a', b'm'], &data));
    let meta = |boxes: &[Vec<u8>]| {
        let mut inner = vec![vec![0u8; 4]];
        inner.extend(boxes.iter().cloned());
        movie(&[boxed(b"udta", &boxed(b"meta", &join(&inner)))])
    };
    let short = boxed(b"data", &[]);
    // Under the handler of metadata lists the items are opened.
    assert!(!nests(&meta(&[handler(), list(short.clone())])));
    assert!(!nests(&meta(&[list(short.clone()), handler()])));
    // Under another handler, or none, the list is taken whole.
    assert!(nests(&meta(&[other.clone(), list(short.clone())])));
    assert!(nests(&meta(&[list(short.clone())])));
    assert!(nests(&meta(&[list(vec![1, 2, 3])])));
    // The last handler counts.
    assert!(nests(&meta(&[handler(), list(short.clone()), other.clone()])));
    assert!(!nests(&meta(&[other.clone(), list(short.clone()), handler()])));
    // A handler box too short to name a handler names none.
    assert!(nests(&meta(&[boxed(b"hdlr", &[0; 11]), list(short.clone())])));
    assert!(!nests(&meta(&[boxed(b"hdlr", b"\0\0\0\0\0\0\0\0mdir"), list(short.clone())])));
    // The boxes are whole under any handler.
    assert!(!nests(&meta(&[other.clone(), sized(4, b"ilst", &[])])));
    assert!(!nests(&meta(&[other.clone(), sized(0, b"free", &[])])));
}

#[test]
fn metadata_items_hold_whole_data_boxes() {
    let item = |data: Vec<u8>| {
        let list = boxed(b"ilst", &boxed(&[0xa9, b'n', b'a', b'm'], &data));
        movie(&[boxed(b"udta", &boxed(b"meta", &join(&[vec![0; 4], handler(), list])))])
    };
    assert!(nests(&item(boxed(b"data", b"\0\0\0\x01\0\0\0\0Title"))));
    assert!(nests(&item(boxed(b"data", &[0; 8]))));
    assert!(!nests(&item(boxed(b"data", &[0; 7]))));
    assert!(!nests(&item(boxed(b"data", &[]))));
    assert!(nests(&item(boxed(b"mean", &[]))));
    assert!(!nests(&item(sized(0, b"mean", &[]))));
    // An item of another kind is passed over unopened.
    let list = boxed(b"ilst", &boxed(b"zzzz", &boxed(b"data", &[])));
    assert!(nests(&movie(&[boxed(b"meta", &join(&[vec![0; 4], handler(), list]))])));
}

#[test]
fn event_messages_hold_their_texts() {
    let free = boxed(b"free", &[]);
    // Version 0: the two texts, then four numbers, then the message.
    let early = |numbers: usize, message: &[u8]| {
        let mut payload = b"\0\0\0\0urn\0v\0".to_vec();
        payload.extend(vec![7; numbers]);
        payload.extend(message);
        join(&[boxed(b"emsg", &payload), free.clone()])
    };
    assert!(nests(&early(16, b"xy")));
    assert!(nests(&early(16, b"")));
    assert!(!nests(&early(15, b"")));
    assert!(!nests(&early(0, b"")));
    // Version 1: five numbers in 20 bytes, then the two texts, then the
    // message.
    let late = |texts: &[u8]| {
        let mut payload = vec![1, 0, 0, 0];
        payload.extend(vec![7; 20]);
        payload.extend(texts);
        join(&[boxed(b"emsg", &payload), free.clone()])
    };
    assert!(nests(&late(b"urn\0v\0xy")));
    assert!(nests(&late(b"\0\0")));
    assert!(!nests(&late(b"urn\0v")));
    assert!(!nests(&late(b"urn")));
    assert!(!nests(&late(b"")));
    assert!(!nests(&join(&[boxed(b"emsg", &[1, 0, 0, 0, 7, 7, 7]), free.clone()])));
    assert!(!nests(&join(&[boxed(b"emsg", &[2, 0, 0, 0, 0, 0, 0, 0]), free.clone()])));
    assert!(!nests(&join(&[boxed(b"emsg", &[0, 0, 0, 0, b'a', b'b', b'c', b'd']), free.clone()])));
    assert!(!nests(&join(&[boxed(b"emsg", &[0, 0, 0]), free.clone()])));
    assert!(!nests(&join(&[boxed(b"emsg", &[]), free.clone()])));
}
