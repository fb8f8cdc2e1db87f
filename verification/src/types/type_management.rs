//! Types of vertices and relationships: a name and the fields that values of
//! the type must hold.
//!
//! The type file keeps the number of stored types at a fixed position, the
//! type records one after the other from `START_TYPES` on, and the encoded
//! required fields of each type appended at the end of the file. A type
//! record holds the name, zero-padded, then the length and the position of
//! the encoded fields.
use vstd::prelude::*;
use vstd::utf8::*;
use crate::base_types::{ConstraintId, TypeId, ID};
use crate::constants::{
    BobjLen,
    MAX_TYPE_IDS,
    PAGE_SIZE,
    START_TYPES,
    START_TYPE_CONSTRAINTS,
    TYPE_NAME_LENGTH,
    TYPE_OFFSET_MR_ID,
    TYPE_REF_BYTE_LENGTH,
};
use crate::encoding;
use crate::io::file_image::{read_at, read_exact_at, read_ok, write_all_at, write_at};

verus! {

/// Position and length of the encoded required fields of a type.
pub type ConstraintInfo = (ConstraintId, BobjLen);

/// The position of the first zero byte of `b` at or after `i`, or the
/// length of `b` when there is none.
pub open spec fn zero_from(b: Seq<u8>, i: int) -> int
    decreases b.len() - i,
{
    if i < 0 || i >= b.len() {
        b.len() as int
    } else if b[i] == 0 {
        i
    } else {
        zero_from(b, i + 1)
    }
}

/// The first zero byte at or after `i` lies between `i` and the end.
pub proof fn lemma_zero_from_bounds(b: Seq<u8>, i: int)
    requires
        0 <= i <= b.len(),
    ensures
        i <= zero_from(b, i) <= b.len(),
        zero_from(b, i) < b.len() ==> b[zero_from(b, i)] == 0,
        forall|k: int| i <= k < zero_from(b, i) ==> b[k] != 0,
    decreases b.len() - i,
{
    if i < b.len() && b[i] != 0 {
        lemma_zero_from_bounds(b, i + 1);
    }
}

/// Finds the first zero byte of `b` at or after `i`.
fn find_zero(b: &[u8], i: usize) -> (r: usize)
    requires
        i <= b@.len(),
    ensures
        r == zero_from(b@, i as int),
        i <= r <= b@.len(),
{
    let mut j = i;
    while j < b.len() && b[j] != 0
        invariant
            i <= j <= b@.len(),
            zero_from(b@, i as int) == zero_from(b@, j as int),
        decreases b@.len() - j,
    {
        j += 1;
    }
    j
}

/// The bytes of a type record's name: those before its first zero byte.
pub open spec fn name_bytes(raw: Seq<u8>) -> Seq<u8> {
    raw.subrange(0, zero_from(raw, 0))
}

/// The required fields of a type.
#[derive(Debug)]
pub struct Constraints {
    pub required_fields: Vec<String>,
}

impl View for Constraints {
    type V = Seq<Seq<char>>;

    open spec fn view(&self) -> Seq<Seq<char>> {
        self.required_fields@.map_values(|s: String| s@)
    }
}

/// The encoding of the fields `fs`: each field's UTF-8 bytes followed by a
/// zero byte.
pub open spec fn fields_bytes(fs: Seq<Seq<char>>) -> Seq<u8>
    decreases fs.len(),
{
    if fs.len() == 0 {
        Seq::empty()
    } else {
        fields_bytes(fs.drop_last()) + encoding::utf8(fs.last()) + seq![0u8]
    }
}

/// The segments of `raw` from `i` on, split at zero bytes, up to the first
/// empty segment.
pub open spec fn lead_fields(raw: Seq<u8>, i: int) -> Seq<Seq<u8>>
    decreases raw.len() - i,
{
    if i < 0 || i >= raw.len() {
        Seq::empty()
    } else {
        let j = zero_from(raw, i);
        proof {
            lemma_zero_from_bounds(raw, i);
        }
        if j == i {
            Seq::empty()
        } else if j >= raw.len() {
            seq![raw.subrange(i, j)]
        } else {
            seq![raw.subrange(i, j)] + lead_fields(raw, j + 1)
        }
    }
}

/// The fields that decoding `raw` gives.
pub open spec fn decoded_fields(raw: Seq<u8>) -> Seq<Seq<char>> {
    lead_fields(raw, 0).map_values(|b: Seq<u8>| decode_utf8(b))
}

impl Constraints {
    /// The fields, each followed by a zero byte, and a final zero byte.
    pub fn to_bytes(&self) -> (r: Vec<u8>)
        ensures
            r@ == fields_bytes(self@) + seq![0u8],
    {
        let mut bytes: Vec<u8> = Vec::new();
        let mut i: usize = 0;
        while i < self.required_fields.len()
            invariant
                i <= self@.len(),
                self@.len() == self.required_fields@.len(),
                bytes@ == fields_bytes(self@.subrange(0, i as int)),
            decreases self.required_fields@.len() - i,
        {
            let b = encoding::str_bytes(self.required_fields[i].as_str());
            encoding::append_bytes(&mut bytes, b.as_slice());
            bytes.push(0u8);
            assert(self@.subrange(0, i + 1).drop_last() == self@.subrange(0, i as int));
            i += 1;
        }
        assert(self@.subrange(0, i as int) == self@);
        bytes.push(0u8);
        bytes
    }

    /// Decodes the fields: the zero-separated segments up to the first empty
    /// one. Each of them must be UTF-8.
    pub fn from_bytes(raw_bytes: Vec<u8>) -> (r: Result<Self, String>)
        requires
            forall|k: int|
                0 <= k < lead_fields(raw_bytes@, 0).len() ==> valid_utf8(
                    #[trigger] lead_fields(raw_bytes@, 0)[k],
                ),
        ensures
            r matches Ok(c) && c@ == decoded_fields(raw_bytes@),
    {
        let raw = raw_bytes.as_slice();
        let ghost total = decoded_fields(raw@);
        let mut fields: Vec<String> = Vec::new();
        let mut i: usize = 0;
        while i < raw.len()
            invariant_except_break
                i <= raw@.len(),
                raw@ == raw_bytes@,
                total == decoded_fields(raw@),
                forall|k: int|
                    0 <= k < lead_fields(raw@, 0).len() ==> valid_utf8(
                        #[trigger] lead_fields(raw@, 0)[k],
                    ),
                lead_fields(raw@, 0) == fields@.map_values(|s: String| encoding::utf8(s@))
                    + lead_fields(raw@, i as int),
                fields@.map_values(|s: String| s@) + lead_fields(raw@, i as int).map_values(
                    |b: Seq<u8>| decode_utf8(b),
                ) == total,
            ensures
                fields@.map_values(|s: String| s@) == total,
            decreases raw@.len() - i,
        {
            let j = find_zero(raw, i);
            if j == i {
                assert(lead_fields(raw@, i as int) == Seq::<Seq<u8>>::empty());
                assert(fields@.map_values(|s: String| s@) =~= fields@.map_values(|s: String| s@)
                    + Seq::<Seq<char>>::empty());
                break;
            }
            let field = encoding::copy_range(raw, i, j);
            let ghost rest = lead_fields(raw@, i as int);
            assert(rest[0] == field@);
            assert(lead_fields(raw@, 0)[fields@.len() as int] == field@);
            let s = encoding::string_from_utf8(field).unwrap();
            proof {
                encoding::lemma_utf8_roundtrip(s@);
                lemma_decode_encode(field@, s@);
            }
            fields.push(s);
            let ghost tail = if j >= raw@.len() {
                Seq::<Seq<u8>>::empty()
            } else {
                lead_fields(raw@, j + 1)
            };
            assert(rest == seq![field@] + tail);
            assert(fields@.map_values(|s: String| encoding::utf8(s@)) =~= fields@.drop_last().map_values(
                |s: String| encoding::utf8(s@),
            ) + seq![field@]);
            assert(fields@.map_values(|s: String| s@) =~= fields@.drop_last().map_values(
                |s: String| s@,
            ) + seq![s@]);
            assert(rest.map_values(|b: Seq<u8>| decode_utf8(b)) =~= seq![s@] + tail.map_values(
                |b: Seq<u8>| decode_utf8(b),
            ));
            if j >= raw.len() {
                assert(fields@.map_values(|s: String| s@) =~= fields@.map_values(|s: String| s@)
                    + Seq::<Seq<char>>::empty());
                break;
            }
            i = j + 1;
        }
        Ok(Constraints { required_fields: fields })
    }
}


/// A type as stored: its name, and either its required fields or where they
/// are stored.
#[derive(Debug)]
pub struct TypeRef {
    pub typename: String,
    pub constraints: Option<Constraints>,
    pub constraints_info: Option<ConstraintInfo>,
}

impl View for TypeRef {
    type V = (Seq<char>, Option<Seq<Seq<char>>>, Option<ConstraintInfo>);

    open spec fn view(&self) -> (Seq<char>, Option<Seq<Seq<char>>>, Option<ConstraintInfo>) {
        (
            self.typename@,
            match self.constraints {
                Some(c) => Some(c@),
                None => None,
            },
            self.constraints_info,
        )
    }
}

/// The bytes of a type record: the name's UTF-8 bytes padded with zeros to
/// `TYPE_NAME_LENGTH`, the length of the encoded fields and their position,
/// little endian.
pub open spec fn type_ref_bytes(name: Seq<char>, constraint_id: ConstraintId, len: u16) -> Seq<u8> {
    encoding::utf8(name) + Seq::new(
        (TYPE_NAME_LENGTH - encoding::utf8(name).len()) as nat,
        |i: int| 0u8,
    ) + encoding::le_u16(len) + encoding::le_u32(constraint_id)
}

/// What decoding the type record `raw` gives: the name before the first zero
/// byte, and where the fields are stored; nothing when the name is not UTF-8.
pub open spec fn decode_type_ref(raw: Seq<u8>) -> Option<(Seq<char>, ConstraintInfo)> {
    if valid_utf8(name_bytes(raw)) {
        Some((decode_utf8(name_bytes(raw)), (encoding::u32_at(raw, 124), encoding::u16_at(raw, 122))))
    } else {
        None
    }
}

impl TypeRef {
    /// A type; at least one of the fields and their position must be given.
    pub fn new(
        typename: String,
        constraints: Option<Constraints>,
        constraints_info: Option<ConstraintInfo>,
    ) -> (r: Self)
        requires
            constraints is Some || constraints_info is Some,
        ensures
            r == (TypeRef { typename, constraints, constraints_info }),
    {
        TypeRef { typename, constraints, constraints_info }
    }

    /// Encodes the type with the given position and length of its fields.
    /// The name must fit in `TYPE_NAME_LENGTH` bytes.
    pub fn to_bytes(&self, constraint_id: ConstraintId, constraints_bytes_len: u16) -> (r: [u8; TYPE_REF_BYTE_LENGTH])
        requires
            encoding::utf8(self.typename@).len() <= TYPE_NAME_LENGTH,
        ensures
            r@ == type_ref_bytes(self.typename@, constraint_id, constraints_bytes_len),
    {
        let mut bytes = [0u8; TYPE_REF_BYTE_LENGTH];
        let name_bytes = self.typename.as_str().as_bytes();
        proof {
            encoding::lemma_utf8_roundtrip(self.typename@);
        }
        let ghost n = name_bytes@.len();
        let mut i: usize = 0;
        while i < name_bytes.len()
            invariant
                n == name_bytes@.len(),
                n <= TYPE_NAME_LENGTH,
                i <= n,
                bytes@.len() == TYPE_REF_BYTE_LENGTH,
                forall|k: int| 0 <= k < i ==> bytes@[k] == name_bytes@[k],
                forall|k: int| i <= k < TYPE_REF_BYTE_LENGTH ==> bytes@[k] == 0u8,
            decreases n - i,
        {
            bytes[i] = name_bytes[i];
            i += 1;
        }
        let len_bytes: u16 = constraints_bytes_len;
        bytes[122] = (len_bytes % 256) as u8;
        bytes[123] = (len_bytes / 256) as u8;
        bytes[124] = (constraint_id % 256) as u8;
        bytes[125] = ((constraint_id / 256) % 256) as u8;
        bytes[126] = ((constraint_id / 65536) % 256) as u8;
        bytes[127] = (constraint_id / 16777216) as u8;
        assert(bytes@ =~= type_ref_bytes(self.typename@, constraint_id, constraints_bytes_len));
        bytes
    }

    /// Decodes a type record; the fields are left where they are stored.
    pub fn from_bytes(raw_bytes: [u8; TYPE_REF_BYTE_LENGTH]) -> (r: Result<Self, String>)
        ensures
            r is Ok <==> decode_type_ref(raw_bytes@) is Some,
            r matches Ok(t) ==> t@ == (
                decode_type_ref(raw_bytes@).unwrap().0,
                None::<Seq<Seq<char>>>,
                Some(decode_type_ref(raw_bytes@).unwrap().1),
            ),
            r matches Err(e) ==> e@ == "Failed to get type name (utf8 String) from raw_bytes"@,
    {
        let raw = raw_bytes.as_slice();
        let constraints_bytes_len = encoding::read_u16_le(raw, 122);
        let constraint_id = encoding::read_u32_le(raw, 124);
        let end = find_zero(raw, 0);
        let name = encoding::copy_range(raw, 0, end);
        match encoding::string_from_utf8(name) {
            Some(typename) => Ok(
                TypeRef::new(typename, None, Some((constraint_id, constraints_bytes_len))),
            ),
            None => Err("Failed to get type name (utf8 String) from raw_bytes".to_owned()),
        }
    }
}


/// Where the record of type `id` lies in the type file.
pub open spec fn type_offset(id: TypeId) -> int {
    START_TYPES + id * TYPE_REF_BYTE_LENGTH
}

/// The message of a read past the end of the type file.
pub open spec fn type_io_error_text() -> Seq<char> {
    "IO-Error: failed to fill whole buffer"@
}

/// `r` is what the spec result `s` describes: the same type, or an error
/// with the same message.
pub open spec fn type_result_is(r: Result<TypeRef, String>, s: Result<(Seq<char>, ConstraintInfo), Seq<char>>) -> bool {
    match (r, s) {
        (Ok(t), Ok((n, i))) => t@ == (n, None::<Seq<Seq<char>>>, Some(i)),
        (Err(e), Err(m)) => e@ == m,
        _ => false,
    }
}

/// What reading type `id` from the type file `data` gives.
pub open spec fn type_read(data: Seq<u8>, id: TypeId) -> Result<(Seq<char>, ConstraintInfo), Seq<char>> {
    if !read_ok(data, type_offset(id), TYPE_REF_BYTE_LENGTH as int) {
        Err(type_io_error_text())
    } else {
        match decode_type_ref(read_at(data, type_offset(id), TYPE_REF_BYTE_LENGTH as int)) {
            Some(v) => Ok(v),
            None => Err("Failed to get type name (utf8 String) from raw_bytes"@),
        }
    }
}

/// The record in slot `k` of the page of the type file at `pos`.
pub open spec fn slot_raw(data: Seq<u8>, pos: int, k: int) -> Seq<u8> {
    data.subrange(pos + k * TYPE_REF_BYTE_LENGTH, pos + k * TYPE_REF_BYTE_LENGTH + TYPE_REF_BYTE_LENGTH)
}

/// Every record of the page at `pos` has a UTF-8 name.
pub open spec fn page_valid(data: Seq<u8>, pos: int) -> bool {
    forall|k: int| 0 <= k < 4 ==> #[trigger] decode_type_ref(slot_raw(data, pos, k)) is Some
}

/// The first slot of the page at `pos` whose record is named `name`.
pub open spec fn page_match(data: Seq<u8>, pos: int, name: Seq<char>) -> Option<int> {
    if decode_type_ref(slot_raw(data, pos, 0)).unwrap().0 == name {
        Some(0)
    } else if decode_type_ref(slot_raw(data, pos, 1)).unwrap().0 == name {
        Some(1)
    } else if decode_type_ref(slot_raw(data, pos, 2)).unwrap().0 == name {
        Some(2)
    } else if decode_type_ref(slot_raw(data, pos, 3)).unwrap().0 == name {
        Some(3)
    } else {
        None
    }
}

/// Scanning the type file page by page from `pos`, while `pos` lies before
/// the end of the stored types `last` and before the fields area, for a
/// record named `name`: the first one found. The scan stops at a page that
/// lies past the end of the file.
pub open spec fn find_scan(data: Seq<u8>, last: int, name: Seq<char>, pos: int) -> Option<(Seq<char>, ConstraintInfo)>
    decreases START_TYPE_CONSTRAINTS + PAGE_SIZE - pos,
{
    if !(pos < last && pos < START_TYPE_CONSTRAINTS) || !read_ok(data, pos, PAGE_SIZE as int) {
        None
    } else {
        match page_match(data, pos, name) {
            Some(k) => decode_type_ref(slot_raw(data, pos, k)),
            None => find_scan(data, last, name, pos + PAGE_SIZE),
        }
    }
}

/// The scan from `pos` runs to completion: every page it decodes holds
/// records with UTF-8 names.
pub open spec fn find_scan_ok(data: Seq<u8>, last: int, name: Seq<char>, pos: int) -> bool
    decreases START_TYPE_CONSTRAINTS + PAGE_SIZE - pos,
{
    if !(pos < last && pos < START_TYPE_CONSTRAINTS) || !read_ok(data, pos, PAGE_SIZE as int) {
        true
    } else {
        page_valid(data, pos) && (page_match(data, pos, name) is Some || find_scan_ok(
            data,
            last,
            name,
            pos + PAGE_SIZE,
        ))
    }
}

/// The start of the page of the type file that holds record `j`.
pub open spec fn page_of(j: int) -> int {
    START_TYPES + (j / 4) * PAGE_SIZE
}

/// Looking a name up finds every stored record with that name: when record
/// `j` lies before `last`, sits on a page that the scan reaches and that
/// lies in the file, and is named `name`, the scan from page `q` (at or
/// before the page of `j`) returns a record named `name`.
proof fn lemma_find_scan_reaches(data: Seq<u8>, last: int, name: Seq<char>, q: int, j: int)
    requires
        0 <= q,
        0 <= j,
        q <= j / 4,
        type_offset(j as TypeId) + TYPE_REF_BYTE_LENGTH <= last,
        j <= u32::MAX,
        page_of(j) < START_TYPE_CONSTRAINTS,
        read_ok(data, page_of(j), PAGE_SIZE as int),
        find_scan_ok(data, last, name, START_TYPES + q * PAGE_SIZE),
        decode_type_ref(read_at(data, type_offset(j as TypeId), TYPE_REF_BYTE_LENGTH as int)) matches Some(
            (n, _),
        ) && n == name,
    ensures
        find_scan(data, last, name, START_TYPES + q * PAGE_SIZE) matches Some((n, _)) && n == name,
    decreases j / 4 - q,
{
    let pos = START_TYPES + q * PAGE_SIZE;
    assert(pos <= page_of(j)) by (nonlinear_arith)
        requires
            q <= j / 4,
            pos == START_TYPES + q * PAGE_SIZE,
            page_of(j) == START_TYPES + (j / 4) * PAGE_SIZE,
    ;
    assert(page_of(j) + (j % 4) * 128 == type_offset(j as TypeId)) by (nonlinear_arith)
        requires
            j >= 0,
            page_of(j) == 1024 + (j / 4) * 512,
            type_offset(j as TypeId) == 1024 + j * 128,
    ;
    assert(page_of(j) <= type_offset(j as TypeId));
    assert(read_ok(data, pos, PAGE_SIZE as int));
    assert(page_valid(data, pos));
    assert(decode_type_ref(slot_raw(data, pos, 0)) is Some);
    assert(decode_type_ref(slot_raw(data, pos, 1)) is Some);
    assert(decode_type_ref(slot_raw(data, pos, 2)) is Some);
    assert(decode_type_ref(slot_raw(data, pos, 3)) is Some);
    if page_match(data, pos, name) is None {
        if pos == page_of(j) {
            let k = j % 4;
            assert(slot_raw(data, pos, k) == read_at(data, type_offset(j as TypeId), TYPE_REF_BYTE_LENGTH as int));
            assert(false);
        }
        assert(pos + PAGE_SIZE == START_TYPES + (q + 1) * PAGE_SIZE);
        assert(q + 1 <= j / 4) by (nonlinear_arith)
            requires
                pos < page_of(j),
                pos == START_TYPES + q * PAGE_SIZE,
                page_of(j) == START_TYPES + (j / 4) * PAGE_SIZE,
        ;
        lemma_find_scan_reaches(data, last, name, q + 1, j);
    }
}

/// Looking a name up finds a stored record with that name: when one of the
/// records before `last` is named `name` and its page is one the scan
/// reaches and lies in the file, the scan of the type file returns a record
/// named `name`; only when no such record exists can it return nothing.
pub proof fn lemma_find_scan_finds_stored_name(data: Seq<u8>, last: int, name: Seq<char>, j: int)
    requires
        0 <= j <= u32::MAX,
        type_offset(j as TypeId) + TYPE_REF_BYTE_LENGTH <= last,
        page_of(j) < START_TYPE_CONSTRAINTS,
        read_ok(data, page_of(j), PAGE_SIZE as int),
        find_scan_ok(data, last, name, START_TYPES as int),
        decode_type_ref(read_at(data, type_offset(j as TypeId), TYPE_REF_BYTE_LENGTH as int)) matches Some(
            (n, _),
        ) && n == name,
    ensures
        find_scan(data, last, name, START_TYPES as int) matches Some((n, _)) && n == name,
{
    assert(START_TYPES + 0 * PAGE_SIZE == START_TYPES);
    lemma_find_scan_reaches(data, last, name, 0, j);
}

/// The encoded fields described by `info` can be decoded: when they lie in
/// the file, each of them is UTF-8.
pub open spec fn fields_readable(data: Seq<u8>, info: ConstraintInfo) -> bool {
    read_ok(data, info.0 as int, info.1 as int) ==> (forall|k: int|
        0 <= k < lead_fields(read_at(data, info.0 as int, info.1 as int), 0).len() ==> valid_utf8(
            #[trigger] lead_fields(read_at(data, info.0 as int, info.1 as int), 0)[k],
        ))
}

/// What reading the fields described by `info` gives.
pub open spec fn fields_read(data: Seq<u8>, info: ConstraintInfo) -> Result<Seq<Seq<char>>, Seq<char>> {
    if read_ok(data, info.0 as int, info.1 as int) {
        Ok(decoded_fields(read_at(data, info.0 as int, info.1 as int)))
    } else {
        Err(type_io_error_text())
    }
}

/// The type file after adding type `name` with fields `fs` as type `mr_id`:
/// the encoded fields appended, the type record written, and the number of
/// types advanced.
pub open spec fn data_after_add(data: Seq<u8>, mr_id: u32, name: Seq<char>, fs: Seq<Seq<char>>) -> Seq<u8> {
    let cb = fields_bytes(fs) + seq![0u8];
    let d1 = data + cb;
    let d2 = write_at(d1, type_offset(mr_id), type_ref_bytes(name, data.len() as u32, cb.len() as u16));
    write_at(d2, TYPE_OFFSET_MR_ID as int, encoding::le_u32((mr_id + 1) as u32))
}

/// The type file: its contents, where the type records start, and the
/// number of stored types.
#[derive(Debug)]
pub struct TypeFile {
    pub data: Vec<u8>,
    pub start_types: usize,
    pub mr_id: u32,
}

impl TypeFile {
    /// The end of the stored type records.
    pub open spec fn last_offset(self) -> int {
        type_offset(self.mr_id)
    }

    /// A type file with the given contents; the number of stored types is
    /// read at `TYPE_OFFSET_MR_ID`, which must lie inside the file.
    pub fn new(data: Vec<u8>) -> (r: Result<Self, String>)
        ensures
            r is Ok <==> read_ok(data@, TYPE_OFFSET_MR_ID as int, 4),
            r matches Ok(f) ==> f.data@ == data@ && f.start_types == START_TYPES && f.mr_id
                == encoding::u32_at(data@, TYPE_OFFSET_MR_ID as int),
            r matches Err(e) ==> e@ == crate::io::read::short_read_text(),
    {
        match read_exact_at(&data, 4, TYPE_OFFSET_MR_ID as u64) {
            Some(buf) => {
                let mr_id = encoding::read_u32_le(buf.as_slice(), 0);
                Ok(TypeFile { data, start_types: START_TYPES, mr_id })
            },
            None => Err("failed to fill whole buffer".to_owned()),
        }
    }

    /// Reads the record of type `type_id`.
    pub fn get_type(&self, type_id: TypeId) -> (r: Result<TypeRef, String>)
        requires
            type_offset(type_id) + TYPE_REF_BYTE_LENGTH <= usize::MAX,
        ensures
            type_result_is(r, type_read(self.data@, type_id)),
    {
        let offset = Self::get_type_offset(type_id);
        match read_exact_at(&self.data, TYPE_REF_BYTE_LENGTH, offset) {
            Some(buf) => {
                let raw = record_array(buf.as_slice());
                TypeRef::from_bytes(raw)
            },
            None => Err("IO-Error: failed to fill whole buffer".to_owned()),
        }
    }

    fn get_offset_from_type_id(type_id: TypeId) -> (r: u64)
        ensures
            r == type_offset(type_id),
    {
        let id = type_id as u64;
        assert(id * 128 <= 549_755_813_760) by (nonlinear_arith)
            requires
                id <= u32::MAX,
        ;
        START_TYPES as u64 + id * (TYPE_REF_BYTE_LENGTH as u64)
    }

    /// The position from which the record of `type_id` is read (the start
    /// of its record).
    fn get_type_offset(type_id: TypeId) -> (r: u64)
        ensures
            r == type_offset(type_id),
    {
        Self::get_offset_from_type_id(type_id)
    }

    fn get_offset_last_id(&self) -> (r: u64)
        ensures
            r == self.last_offset(),
    {
        Self::get_offset_from_type_id(self.mr_id)
    }

    /// Decodes the four type records of a page.
    fn type_refs_from_buf_pgs(&self, buf_pgs: &[u8]) -> (r: Vec<TypeRef>)
        requires
            buf_pgs@.len() == PAGE_SIZE,
            page_valid(buf_pgs@, 0),
        ensures
            r@.len() == 4,
            forall|k: int|
                0 <= k < 4 ==> (#[trigger] r@[k])@ == (
                    decode_type_ref(slot_raw(buf_pgs@, 0, k)).unwrap().0,
                    None::<Seq<Seq<char>>>,
                    Some(decode_type_ref(slot_raw(buf_pgs@, 0, k)).unwrap().1),
                ),
    {
        let mut refs: Vec<TypeRef> = Vec::new();
        let mut k: usize = 0;
        while k < 4
            invariant
                k <= 4,
                buf_pgs@.len() == PAGE_SIZE,
                page_valid(buf_pgs@, 0),
                refs@.len() == k,
                forall|j: int|
                    0 <= j < k ==> (#[trigger] refs@[j])@ == (
                        decode_type_ref(slot_raw(buf_pgs@, 0, j)).unwrap().0,
                        None::<Seq<Seq<char>>>,
                        Some(decode_type_ref(slot_raw(buf_pgs@, 0, j)).unwrap().1),
                    ),
            decreases 4 - k,
        {
            let chunk = encoding::copy_range(
                buf_pgs,
                k * TYPE_REF_BYTE_LENGTH,
                k * TYPE_REF_BYTE_LENGTH + TYPE_REF_BYTE_LENGTH,
            );
            let raw = record_array(chunk.as_slice());
            assert(decode_type_ref(slot_raw(buf_pgs@, 0, k as int)) is Some);
            let tr = TypeRef::from_bytes(raw).unwrap();
            refs.push(tr);
            k += 1;
        }
        refs
    }

    /// Looks for a type named `typename` among the stored ones, page by page;
    /// a type that is found is given id 0.
    pub fn find_type_name(&self, typename: &str) -> (r: Option<(TypeRef, TypeId)>)
        requires
            find_scan_ok(self.data@, self.last_offset(), typename@, START_TYPES as int),
        ensures
            r is Some <==> find_scan(self.data@, self.last_offset(), typename@, START_TYPES as int) is Some,
            r matches Some((t, id)) ==> id == 0 && t@ == (
                find_scan(self.data@, self.last_offset(), typename@, START_TYPES as int).unwrap().0,
                None::<Seq<Seq<char>>>,
                Some(find_scan(self.data@, self.last_offset(), typename@, START_TYPES as int).unwrap().1),
            ),
    {
        let ghost target = find_scan(self.data@, self.last_offset(), typename@, START_TYPES as int);
        let last = self.get_offset_last_id();
        let mut cur_pos: u64 = START_TYPES as u64;
        while cur_pos < last && cur_pos < START_TYPE_CONSTRAINTS as u64
            invariant
                last == self.last_offset(),
                target == find_scan(self.data@, self.last_offset(), typename@, START_TYPES as int),
                START_TYPES <= cur_pos <= START_TYPE_CONSTRAINTS + PAGE_SIZE,
                find_scan_ok(self.data@, last as int, typename@, cur_pos as int),
                find_scan(self.data@, last as int, typename@, cur_pos as int) == target,
            decreases START_TYPE_CONSTRAINTS + PAGE_SIZE - cur_pos,
        {
            let buffer = match read_exact_at(&self.data, PAGE_SIZE, cur_pos) {
                Some(b) => b,
                None => {
                    assert(find_scan(self.data@, last as int, typename@, cur_pos as int) is None);
                    return None;
                },
            };
            proof {
                lemma_page_slots(self.data@, cur_pos as int, buffer@);
            }
            let mut type_refs = self.type_refs_from_buf_pgs(buffer.as_slice());
            let mut k: usize = 0;
            while k < 4
                invariant
                    k <= 4,
                    last == self.last_offset(),
                    cur_pos < last && cur_pos < START_TYPE_CONSTRAINTS,
                    read_ok(self.data@, cur_pos as int, PAGE_SIZE as int),
                    page_valid(self.data@, cur_pos as int),
                    find_scan(self.data@, last as int, typename@, cur_pos as int) == target,
                    target == find_scan(self.data@, self.last_offset(), typename@, START_TYPES as int),
                    type_refs@.len() == 4,
                    forall|j: int|
                        0 <= j < 4 ==> (#[trigger] type_refs@[j])@ == (
                            decode_type_ref(slot_raw(self.data@, cur_pos as int, j)).unwrap().0,
                            None::<Seq<Seq<char>>>,
                            Some(decode_type_ref(slot_raw(self.data@, cur_pos as int, j)).unwrap().1),
                        ),
                    forall|j: int|
                        0 <= j < k ==> decode_type_ref(slot_raw(self.data@, cur_pos as int, j)).unwrap().0
                            != typename@,
                decreases 4 - k,
            {
                if encoding::str_eq(type_refs[k].typename.as_str(), typename) {
                    assert(page_match(self.data@, cur_pos as int, typename@) == Some(k as int));
                    assert(decode_type_ref(slot_raw(self.data@, cur_pos as int, k as int)) is Some);
                    let found = type_refs.remove(k);
                    return Some((found, 0));
                }
                k += 1;
            }
            assert(page_match(self.data@, cur_pos as int, typename@) is None);
            cur_pos += PAGE_SIZE as u64;
        }
        None
    }

    /// Reads the encoded fields described by `constraints_info` and decodes
    /// them.
    pub fn get_constraints(&self, constraints_info: ConstraintInfo) -> (r: Result<Constraints, String>)
        requires
            fields_readable(self.data@, constraints_info),
        ensures
            r is Ok <==> fields_read(self.data@, constraints_info) is Ok,
            r matches Ok(c) ==> fields_read(self.data@, constraints_info) == Ok::<Seq<Seq<char>>, Seq<char>>(c@),
            r matches Err(e) ==> fields_read(self.data@, constraints_info) == Err::<Seq<Seq<char>>, Seq<char>>(e@),
    {
        let offset = constraints_info.0 as u64;
        match read_exact_at(&self.data, constraints_info.1 as usize, offset) {
            Some(buf) => Constraints::from_bytes(buf),
            None => Err("IO-Error: failed to fill whole buffer".to_owned()),
        }
    }

    /// Adds type `name` with the given fields as the next type. A name that
    /// the scan finds is refused and the file is then unchanged.
    pub fn add_type(&mut self, name: &str, constraints: Constraints) -> (r: Result<(), String>)
        requires
            find_scan_ok(old(self).data@, old(self).last_offset(), name@, START_TYPES as int),
            find_scan(old(self).data@, old(self).last_offset(), name@, START_TYPES as int) is None ==> {
                &&& old(self).mr_id < MAX_TYPE_IDS
                &&& fields_bytes(constraints@).len() + 1 <= u16::MAX
                &&& old(self).data@.len() + fields_bytes(constraints@).len() + 1 <= usize::MAX
                &&& encoding::utf8(name@).len() <= TYPE_NAME_LENGTH
            },
        ensures
            r is Ok <==> find_scan(old(self).data@, old(self).last_offset(), name@, START_TYPES as int) is None,
            r matches Err(e) ==> e@ == "Type '{name}' already exists"@ && *final(self) == *old(self),
            r is Ok ==> final(self).mr_id == old(self).mr_id + 1 && final(self).start_types == old(
                self,
            ).start_types && final(self).data@ == data_after_add(
                old(self).data@,
                old(self).mr_id,
                name@,
                constraints@,
            ),
    {
        if self.find_type_name(name).is_some() {
            return Err("Type '{name}' already exists".to_owned());
        }
        let constraint_bytes = constraints.to_bytes();
        let constraint_id = self.data.len() as u64;
        let constraints_bytes_len = constraint_bytes.len() as u16;
        let ghost cfields = constraints@;
        write_all_at(&mut self.data, constraint_bytes.as_slice(), constraint_id);
        assert(self.data@ =~= old(self).data@ + fields_bytes(cfields) + seq![0u8]);
        let tr = TypeRef::new(name.to_owned(), Some(constraints), None);
        let tr_bytes = tr.to_bytes(constraint_id as ID, constraints_bytes_len);
        let offset = self.get_offset_last_id();
        write_all_at(&mut self.data, tr_bytes.as_slice(), offset);
        self.increment_mr_id();
        Ok(())
    }

    /// Advances the number of stored types and stores it.
    fn increment_mr_id(&mut self)
        requires
            old(self).mr_id < MAX_TYPE_IDS,
        ensures
            final(self).mr_id == old(self).mr_id + 1,
            final(self).start_types == old(self).start_types,
            final(self).data@ == write_at(
                old(self).data@,
                TYPE_OFFSET_MR_ID as int,
                encoding::le_u32((old(self).mr_id + 1) as u32),
            ),
    {
        self.mr_id = self.mr_id + 1;
        let mut buf: Vec<u8> = Vec::new();
        encoding::push_u32_le(&mut buf, self.mr_id);
        write_all_at(&mut self.data, buf.as_slice(), TYPE_OFFSET_MR_ID as u64);
    }
}

/// A record-sized array holding `b`.
fn record_array(b: &[u8]) -> (r: [u8; TYPE_REF_BYTE_LENGTH])
    requires
        b@.len() == TYPE_REF_BYTE_LENGTH,
    ensures
        r@ == b@,
{
    let mut raw = [0u8; TYPE_REF_BYTE_LENGTH];
    let mut i: usize = 0;
    while i < TYPE_REF_BYTE_LENGTH
        invariant
            i <= TYPE_REF_BYTE_LENGTH,
            b@.len() == TYPE_REF_BYTE_LENGTH,
            raw@.len() == TYPE_REF_BYTE_LENGTH,
            forall|k: int| 0 <= k < i ==> raw@[k] == b@[k],
        decreases TYPE_REF_BYTE_LENGTH - i,
    {
        raw[i] = b[i];
        i += 1;
    }
    assert(raw@ =~= b@);
    raw
}

/// The slots of a page read at `pos` are the records of the file there.
proof fn lemma_page_slots(data: Seq<u8>, pos: int, page: Seq<u8>)
    requires
        read_ok(data, pos, PAGE_SIZE as int),
        page == read_at(data, pos, PAGE_SIZE as int),
    ensures
        forall|k: int| 0 <= k < 4 ==> #[trigger] slot_raw(page, 0, k) == slot_raw(data, pos, k),
{
    assert forall|k: int| 0 <= k < 4 implies #[trigger] slot_raw(page, 0, k) == slot_raw(data, pos, k) by {
        assert(slot_raw(page, 0, k) =~= slot_raw(data, pos, k));
    }
}


/// Encoding a type record and decoding it gives back the name and where the
/// fields are stored, for a name shorter than the name part of a record and
/// without zero bytes.
pub proof fn lemma_type_ref_roundtrip(name: Seq<char>, cid: ConstraintId, clen: u16)
    requires
        encoding::utf8(name).len() < TYPE_NAME_LENGTH,
        !encoding::utf8(name).contains(0u8),
    ensures
        type_ref_bytes(name, cid, clen).len() == TYPE_REF_BYTE_LENGTH,
        decode_type_ref(type_ref_bytes(name, cid, clen)) == Some((name, (cid, clen))),
{
    let tb = type_ref_bytes(name, cid, clen);
    let n = encoding::utf8(name).len() as int;
    assert(tb.len() == 128);
    assert(tb[n] == 0u8);
    assert forall|k: int| 0 <= k < n implies tb[k] != 0u8 by {
        assert(tb[k] == encoding::utf8(name)[k]);
        if tb[k] == 0u8 {
            assert(encoding::utf8(name).contains(0u8));
        }
    }
    lemma_zero_from_bounds(tb, 0);
    let z = zero_from(tb, 0);
    if z < n {
        assert(tb[z] != 0u8);
    }
    if z > n {
        assert(tb[n] != 0u8);
    }
    assert(name_bytes(tb) =~= encoding::utf8(name));
    encoding::lemma_utf8_roundtrip(name);
    encoding::lemma_u32_roundtrip(cid);
    encoding::lemma_u16_roundtrip(clen);
    assert(encoding::u32_at(tb, 124) == encoding::u32_at(encoding::le_u32(cid), 0));
    assert(encoding::u16_at(tb, 122) == encoding::u16_at(encoding::le_u16(clen), 0));
}

/// Adding a type and then reading the record of its id gives back its name
/// and where its fields were stored, for a name shorter than the name part
/// of a record and without zero bytes.
pub proof fn lemma_add_type_then_get(data: Seq<u8>, mr_id: u32, name: Seq<char>, fs: Seq<Seq<char>>)
    requires
        mr_id < MAX_TYPE_IDS,
        encoding::utf8(name).len() < TYPE_NAME_LENGTH,
        !encoding::utf8(name).contains(0u8),
    ensures
        type_read(data_after_add(data, mr_id, name, fs), mr_id) == Ok::<
            (Seq<char>, ConstraintInfo),
            Seq<char>,
        >((name, (data.len() as u32, (fields_bytes(fs).len() + 1) as u16))),
{
    let cb = fields_bytes(fs) + seq![0u8];
    let cid = data.len() as u32;
    let clen = cb.len() as u16;
    let d1 = data + cb;
    let off = type_offset(mr_id);
    let tb = type_ref_bytes(name, cid, clen);
    let d2 = write_at(d1, off, tb);
    let mb = encoding::le_u32((mr_id + 1) as u32);
    lemma_type_ref_roundtrip(name, cid, clen);
    crate::io::file_image::lemma_read_after_write(d1, off, tb);
    crate::io::file_image::lemma_read_other_after_write(d2, TYPE_OFFSET_MR_ID as int, mb, off, 128);
}

/// The fields stored with an added type read back as they were given: after
/// adding type `name` with fields `fs` to a type file that reaches past the
/// type area, the fields described by the new record (stored at the old end
/// of the file, with their final zero byte) decode to `fs`, when every field
/// is non-empty and has no zero byte.
pub proof fn lemma_add_type_then_get_constraints(data: Seq<u8>, mr_id: u32, name: Seq<char>, fs: Seq<Seq<char>>)
    requires
        mr_id < MAX_TYPE_IDS,
        encoding::utf8(name).len() <= TYPE_NAME_LENGTH,
        START_TYPES + START_TYPE_CONSTRAINTS <= data.len() <= u32::MAX,
        fields_bytes(fs).len() + 1 <= u16::MAX,
        forall|k: int| 0 <= k < fs.len() ==> encoding::utf8(#[trigger] fs[k]).len() > 0,
        forall|k: int| 0 <= k < fs.len() ==> !encoding::utf8(#[trigger] fs[k]).contains(0u8),
    ensures
        ({
            let info: ConstraintInfo = (data.len() as u32, (fields_bytes(fs).len() + 1) as u16);
            &&& fields_readable(data_after_add(data, mr_id, name, fs), info)
            &&& fields_read(data_after_add(data, mr_id, name, fs), info) == Ok::<Seq<Seq<char>>, Seq<char>>(fs)
        }),
{
    let cb = fields_bytes(fs) + seq![0u8];
    let d1 = data + cb;
    let tb = type_ref_bytes(name, data.len() as u32, cb.len() as u16);
    let d2 = write_at(d1, type_offset(mr_id), tb);
    let mb = encoding::le_u32((mr_id + 1) as u32);
    let off = data.len() as int;
    let n = cb.len() as int;
    encoding::lemma_u16_roundtrip(cb.len() as u16);
    encoding::lemma_u32_roundtrip(data.len() as u32);
    assert(tb.len() == 128);
    assert(read_at(d1, off, n) =~= cb);
    assert(type_offset(mr_id) + 128 <= off) by (nonlinear_arith)
        requires
            mr_id < 511,
            off >= 66559,
            type_offset(mr_id) == 1024 + mr_id * 128,
    ;
    crate::io::file_image::lemma_read_other_after_write(d1, type_offset(mr_id), tb, off, n);
    crate::io::file_image::lemma_read_other_after_write(d2, TYPE_OFFSET_MR_ID as int, mb, off, n);
    lemma_constraints_roundtrip(fs);
    let lf = lead_fields(cb, 0);
    assert forall|k: int| 0 <= k < lf.len() implies valid_utf8(#[trigger] lf[k]) by {
        assert(lf[k] == encoding::utf8(fs[k]));
        encoding::lemma_utf8_roundtrip(fs[k]);
    }
}

/// The kinds of values an index can be built over.
#[derive(Debug, Clone, Copy, PartialEq, Eq)]
pub enum IndexType {
    STRING,
    U64,
    INVALIDTYPE,
}

/// A value that an index can be searched for.
#[derive(Debug)]
pub enum IndexAbleType {
    STRING(String),
    U64(u64),
}

impl IndexAbleType {
    /// The name of the value's kind.
    pub fn type_to_str(&self) -> (r: &str)
        ensures
            r@ == (match self {
                IndexAbleType::STRING(_) => "STRING"@,
                IndexAbleType::U64(_) => "U64"@,
            }),
    {
        match self {
            IndexAbleType::STRING(_) => "STRING",
            IndexAbleType::U64(_) => "U64",
        }
    }
}

/// The encoding of a list of fields starts with the encoding of its first
/// field.
proof fn lemma_fields_bytes_front(fs: Seq<Seq<char>>)
    requires
        fs.len() > 0,
    ensures
        fields_bytes(fs) == encoding::utf8(fs[0]) + seq![0u8] + fields_bytes(fs.drop_first()),
    decreases fs.len(),
{
    if fs.len() == 1 {
        assert(fs.drop_last() =~= Seq::<Seq<char>>::empty());
        assert(fs.drop_first() =~= Seq::<Seq<char>>::empty());
        assert(fields_bytes(fs) =~= encoding::utf8(fs[0]) + seq![0u8] + fields_bytes(fs.drop_first()));
    } else {
        lemma_fields_bytes_front(fs.drop_last());
        assert(fs.drop_last().drop_first() =~= fs.drop_first().drop_last());
        assert(fs.drop_first().last() == fs.last());
        assert(fs.drop_last()[0] == fs[0]);
        assert(fields_bytes(fs) =~= encoding::utf8(fs[0]) + seq![0u8] + fields_bytes(fs.drop_first()));
    }
}

/// Searching for a zero byte behind a prefix finds it shifted by the
/// prefix.
proof fn lemma_zero_from_shift(p: Seq<u8>, b: Seq<u8>, i: int)
    requires
        0 <= i <= b.len(),
    ensures
        zero_from(p + b, p.len() + i) == p.len() + zero_from(b, i),
    decreases b.len() - i,
{
    if i < b.len() {
        assert((p + b)[p.len() + i] == b[i]);
        if b[i] != 0 {
            lemma_zero_from_shift(p, b, i + 1);
        }
    }
}

/// Splitting behind a prefix splits as without it.
proof fn lemma_lead_fields_shift(p: Seq<u8>, b: Seq<u8>, i: int)
    requires
        0 <= i <= b.len(),
    ensures
        lead_fields(p + b, p.len() + i) == lead_fields(b, i),
    decreases b.len() - i,
{
    if i < b.len() {
        lemma_zero_from_shift(p, b, i);
        lemma_zero_from_bounds(b, i);
        let j = zero_from(b, i);
        assert((p + b).subrange(p.len() + i, p.len() + j) =~= b.subrange(i, j));
        if j < b.len() {
            lemma_lead_fields_shift(p, b, j + 1);
        }
    }
}

/// Encoding fields and decoding the bytes gives the fields back, when every
/// field is non-empty and has no zero byte.
pub proof fn lemma_constraints_roundtrip(fs: Seq<Seq<char>>)
    requires
        forall|k: int| 0 <= k < fs.len() ==> encoding::utf8(#[trigger] fs[k]).len() > 0,
        forall|k: int| 0 <= k < fs.len() ==> !encoding::utf8(#[trigger] fs[k]).contains(0u8),
    ensures
        lead_fields(fields_bytes(fs) + seq![0u8], 0) == fs.map_values(|f: Seq<char>| encoding::utf8(f)),
        decoded_fields(fields_bytes(fs) + seq![0u8]) == fs,
    decreases fs.len(),
{
    let b = fields_bytes(fs) + seq![0u8];
    if fs.len() == 0 {
        assert(b =~= seq![0u8]);
        assert(zero_from(b, 0) == 0);
        assert(lead_fields(b, 0) =~= Seq::<Seq<u8>>::empty());
        assert(fs.map_values(|f: Seq<char>| encoding::utf8(f)) =~= Seq::<Seq<u8>>::empty());
        assert(decoded_fields(b) =~= fs);
    } else {
        let rest = fs.drop_first();
        assert forall|k: int| 0 <= k < rest.len() implies encoding::utf8(#[trigger] rest[k]).len() > 0
            && !encoding::utf8(rest[k]).contains(0u8) by {
            assert(rest[k] == fs[k + 1]);
        }
        lemma_constraints_roundtrip(rest);
        lemma_fields_bytes_front(fs);
        let f = encoding::utf8(fs[0]);
        let n = f.len() as int;
        let tail = fields_bytes(rest) + seq![0u8];
        let head = f + seq![0u8];
        assert(b =~= head + tail);
        assert(encoding::utf8(fs[0]).len() > 0);
        assert forall|k: int| 0 <= k < n implies b[k] != 0u8 by {
            assert(b[k] == f[k]);
            if f[k] == 0u8 {
                assert(f.contains(0u8));
            }
        }
        assert(b[n] == 0u8);
        lemma_zero_from_bounds(b, 0);
        let z = zero_from(b, 0);
        if z < n {
            assert(b[z] != 0u8);
        }
        if z > n {
            assert(b[n] != 0u8);
        }
        assert(z == n);
        assert(b.subrange(0, n) =~= f);
        lemma_lead_fields_shift(head, tail, 0);
        assert(lead_fields(b, 0) == seq![f] + lead_fields(tail, 0));
        assert(fs.map_values(|g: Seq<char>| encoding::utf8(g)) =~= seq![f] + rest.map_values(
            |g: Seq<char>| encoding::utf8(g),
        ));
        encoding::lemma_utf8_roundtrip(fs[0]);
        assert(decoded_fields(b) =~= seq![fs[0]] + decoded_fields(tail));
        assert(fs =~= seq![fs[0]] + rest);
    }
}

/// A valid UTF-8 sequence is the encoding of what it decodes to.
proof fn lemma_decode_encode(b: Seq<u8>, s: Seq<char>)
    requires
        valid_utf8(b),
        s == decode_utf8(b),
    ensures
        encoding::utf8(s) == b,
{
    decode_utf8_encode_utf8(b);
}

} // verus!
