//! The two messages of the blob container: the header that frames a blob and
//! the blob itself.
use vstd::prelude::*;
use crate::error::PbfError;
use crate::fields::{
    optional_bytes, optional_int32, optional_string, spec_last_bytes, spec_optional_int32,
    spec_optional_string,
};
use crate::message::Message;
use crate::objects::string_view;
use crate::wire::{Field, WireField};

verus! {

/// The bytes of an optional field, or none where it is unset.
pub open spec fn bytes_or_empty(field: Option<Seq<u8>>) -> Seq<u8> {
    match field {
        Some(b) => b,
        None => Seq::empty(),
    }
}

/// The text of an optional field, or the empty text where it is unset.
pub open spec fn text_or_empty(field: Option<Seq<char>>) -> Seq<char> {
    match field {
        Some(s) => s,
        None => Seq::empty(),
    }
}

/// The view of an optional byte string.
pub open spec fn bytes_view(field: Option<Vec<u8>>) -> Option<Seq<u8>> {
    match field {
        Some(b) => Some(b@),
        None => None,
    }
}

/// The header of a blob: the kind of the blob and the length of its payload.
#[derive(Debug, Clone)]
pub struct BlobHeader {
    pub field_type: Option<String>,
    pub indexdata: Option<Vec<u8>>,
    pub datasize: Option<i32>,
}

/// What a `BlobHeader` holds.
pub struct BlobHeaderView {
    pub field_type: Option<Seq<char>>,
    pub indexdata: Option<Seq<u8>>,
    pub datasize: Option<i32>,
}

impl View for BlobHeader {
    type V = BlobHeaderView;

    open spec fn view(&self) -> BlobHeaderView {
        BlobHeaderView {
            field_type: string_view(self.field_type),
            indexdata: bytes_view(self.indexdata),
            datasize: self.datasize,
        }
    }
}

impl BlobHeader {
    /// A header with every field unset.
    pub fn new() -> (r: BlobHeader)
        ensures
            r@ == (BlobHeaderView { field_type: None, indexdata: None, datasize: None }),
    {
        BlobHeader { field_type: None, indexdata: None, datasize: None }
    }

    /// Unsets the kind of the blob.
    pub fn clear_field_type(&mut self)
        ensures
            final(self)@ == (BlobHeaderView { field_type: None, ..old(self)@ }),
    {
        self.field_type = None;
    }

    /// Whether the header names the kind of the blob.
    pub fn has_field_type(&self) -> (r: bool)
        ensures
            r == self@.field_type is Some,
    {
        self.field_type.is_some()
    }

    /// Sets the kind of the blob.
    pub fn set_field_type(&mut self, v: String)
        ensures
            final(self)@ == (BlobHeaderView { field_type: Some(v@), ..old(self)@ }),
    {
        self.field_type = Some(v);
    }

    /// A mutable reference to the kind of the blob, which is first set to the
    /// empty text where it was unset.
    pub fn mut_field_type(&mut self) -> (r: &mut String)
        ensures
            r@ == text_or_empty(old(self)@.field_type),
            final(self)@ == (BlobHeaderView { field_type: Some(final(r)@), ..old(self)@ }),
    {
        self.field_type.get_or_insert(String::new())
    }

    /// Takes the kind of the blob out of the header and leaves the field
    /// unset. An unset field gives the empty text.
    pub fn take_field_type(&mut self) -> (r: String)
        ensures
            r@ == text_or_empty(old(self)@.field_type),
            final(self)@ == (BlobHeaderView { field_type: None, ..old(self)@ }),
    {
        match self.field_type.take() {
            Some(v) => v,
            None => String::new(),
        }
    }

    /// The kind of the blob, or the empty text where the field is unset.
    pub fn get_field_type(&self) -> (r: &str)
        ensures
            r@ == text_or_empty(self@.field_type),
    {
        match &self.field_type {
            Some(v) => v.as_str(),
            None => {
                proof {
                    reveal_strlit("");
                }
                assert(""@ =~= Seq::<char>::empty());
                ""
            },
        }
    }

    /// Unsets the index data.
    pub fn clear_indexdata(&mut self)
        ensures
            final(self)@ == (BlobHeaderView { indexdata: None, ..old(self)@ }),
    {
        self.indexdata = None;
    }

    /// Whether the message carries the index data.
    pub fn has_indexdata(&self) -> (r: bool)
        ensures
            r == self@.indexdata is Some,
    {
        self.indexdata.is_some()
    }

    /// Sets the index data.
    pub fn set_indexdata(&mut self, v: Vec<u8>)
        ensures
            final(self)@ == (BlobHeaderView { indexdata: Some(v@), ..old(self)@ }),
    {
        self.indexdata = Some(v);
    }

    /// A mutable reference to the index data, which is first set to the empty byte
    /// string where it was unset.
    pub fn mut_indexdata(&mut self) -> (r: &mut Vec<u8>)
        ensures
            r@ == bytes_or_empty(old(self)@.indexdata),
            final(self)@ == (BlobHeaderView { indexdata: Some(final(r)@), ..old(self)@ }),
    {
        self.indexdata.get_or_insert(Vec::new())
    }

    /// Takes the index data out of the message and leaves the field unset. An unset
    /// field gives the empty byte string.
    pub fn take_indexdata(&mut self) -> (r: Vec<u8>)
        ensures
            r@ == bytes_or_empty(old(self)@.indexdata),
            final(self)@ == (BlobHeaderView { indexdata: None, ..old(self)@ }),
    {
        match self.indexdata.take() {
            Some(v) => v,
            None => Vec::new(),
        }
    }

    /// The index data, or the empty byte string where the field is unset.
    pub fn get_indexdata(&self) -> (r: &[u8])
        ensures
            r@ == bytes_or_empty(self@.indexdata),
    {
        match &self.indexdata {
            Some(v) => v.as_slice(),
            None => &[],
        }
    }

    /// Unsets the length of the payload.
    pub fn clear_datasize(&mut self)
        ensures
            final(self)@ == (BlobHeaderView { datasize: None, ..old(self)@ }),
    {
        self.datasize = None;
    }

    /// Whether the message carries the length of the payload.
    pub fn has_datasize(&self) -> (r: bool)
        ensures
            r == self@.datasize is Some,
    {
        self.datasize.is_some()
    }

    /// Sets the length of the payload.
    pub fn set_datasize(&mut self, v: i32)
        ensures
            final(self)@ == (BlobHeaderView { datasize: Some(v), ..old(self)@ }),
    {
        self.datasize = Some(v);
    }

    /// The length of the payload, or zero where the field is unset.
    pub fn get_datasize(&self) -> (r: i32)
        ensures
            r == (match self@.datasize {
                Some(v) => v,
                None => 0,
            }),
    {
        match self.datasize {
            Some(v) => v,
            None => 0,
        }
    }
}

impl Message for BlobHeader {
    /// The kind and the length are required; the kind must be UTF-8.
    open spec fn spec_from_fields(fields: Seq<Field>) -> Result<BlobHeaderView, PbfError> {
        let field_type = spec_optional_string(fields, 1);
        let indexdata = spec_last_bytes(fields, 2);
        let datasize = spec_optional_int32(fields, 3);
        if field_type is Err {
            Err(field_type->Err_0)
        } else if indexdata is Err {
            Err(indexdata->Err_0)
        } else if datasize is Err {
            Err(datasize->Err_0)
        } else if field_type->Ok_0 is None || datasize->Ok_0 is None {
            Err(PbfError::MissingRequiredField)
        } else {
            Ok(
                BlobHeaderView {
                    field_type: field_type->Ok_0,
                    indexdata: indexdata->Ok_0,
                    datasize: datasize->Ok_0,
                },
            )
        }
    }

    fn from_fields(fields: &Vec<WireField>) -> (r: Result<Self, PbfError>) {
        let field_type = optional_string(fields, 1)?;
        let indexdata = optional_bytes(fields, 2)?;
        let datasize = optional_int32(fields, 3)?;
        if field_type.is_none() || datasize.is_none() {
            return Err(PbfError::MissingRequiredField);
        }
        Ok(BlobHeader { field_type, indexdata, datasize })
    }
}

/// A blob: the payload of one frame, raw or compressed.
#[allow(non_snake_case)]
#[derive(Debug, Clone)]
pub struct Blob {
    pub raw: Option<Vec<u8>>,
    pub raw_size: Option<i32>,
    pub zlib_data: Option<Vec<u8>>,
    pub lzma_data: Option<Vec<u8>>,
    pub OBSOLETE_bzip2_data: Option<Vec<u8>>,
}

/// What a `Blob` holds.
#[allow(non_snake_case)]
pub struct BlobView {
    pub raw: Option<Seq<u8>>,
    pub raw_size: Option<i32>,
    pub zlib_data: Option<Seq<u8>>,
    pub lzma_data: Option<Seq<u8>>,
    pub OBSOLETE_bzip2_data: Option<Seq<u8>>,
}

impl View for Blob {
    type V = BlobView;

    open spec fn view(&self) -> BlobView {
        BlobView {
            raw: bytes_view(self.raw),
            raw_size: self.raw_size,
            zlib_data: bytes_view(self.zlib_data),
            lzma_data: bytes_view(self.lzma_data),
            OBSOLETE_bzip2_data: bytes_view(self.OBSOLETE_bzip2_data),
        }
    }
}

#[allow(non_snake_case)]
impl Blob {
    /// A blob with every field unset.
    pub fn new() -> (r: Blob)
        ensures
            r@ == (BlobView {
                raw: None,
                raw_size: None,
                zlib_data: None,
                lzma_data: None,
                OBSOLETE_bzip2_data: None,
            }),
    {
        Blob {
            raw: None,
            raw_size: None,
            zlib_data: None,
            lzma_data: None,
            OBSOLETE_bzip2_data: None,
        }
    }

    /// Unsets the uncompressed data.
    pub fn clear_raw(&mut self)
        ensures
            final(self)@ == (BlobView { raw: None, ..old(self)@ }),
    {
        self.raw = None;
    }

    /// Whether the message carries the uncompressed data.
    pub fn has_raw(&self) -> (r: bool)
        ensures
            r == self@.raw is Some,
    {
        self.raw.is_some()
    }

    /// Sets the uncompressed data.
    pub fn set_raw(&mut self, v: Vec<u8>)
        ensures
            final(self)@ == (BlobView { raw: Some(v@), ..old(self)@ }),
    {
        self.raw = Some(v);
    }

    /// A mutable reference to the uncompressed data, which is first set to the empty byte
    /// string where it was unset.
    pub fn mut_raw(&mut self) -> (r: &mut Vec<u8>)
        ensures
            r@ == bytes_or_empty(old(self)@.raw),
            final(self)@ == (BlobView { raw: Some(final(r)@), ..old(self)@ }),
    {
        self.raw.get_or_insert(Vec::new())
    }

    /// Takes the uncompressed data out of the message and leaves the field unset. An unset
    /// field gives the empty byte string.
    pub fn take_raw(&mut self) -> (r: Vec<u8>)
        ensures
            r@ == bytes_or_empty(old(self)@.raw),
            final(self)@ == (BlobView { raw: None, ..old(self)@ }),
    {
        match self.raw.take() {
            Some(v) => v,
            None => Vec::new(),
        }
    }

    /// The uncompressed data, or the empty byte string where the field is unset.
    pub fn get_raw(&self) -> (r: &[u8])
        ensures
            r@ == bytes_or_empty(self@.raw),
    {
        match &self.raw {
            Some(v) => v.as_slice(),
            None => &[],
        }
    }

    /// Unsets the size of the data when uncompressed.
    pub fn clear_raw_size(&mut self)
        ensures
            final(self)@ == (BlobView { raw_size: None, ..old(self)@ }),
    {
        self.raw_size = None;
    }

    /// Whether the message carries the size of the data when uncompressed.
    pub fn has_raw_size(&self) -> (r: bool)
        ensures
            r == self@.raw_size is Some,
    {
        self.raw_size.is_some()
    }

    /// Sets the size of the data when uncompressed.
    pub fn set_raw_size(&mut self, v: i32)
        ensures
            final(self)@ == (BlobView { raw_size: Some(v), ..old(self)@ }),
    {
        self.raw_size = Some(v);
    }

    /// The size of the data when uncompressed, or zero where the field is unset.
    pub fn get_raw_size(&self) -> (r: i32)
        ensures
            r == (match self@.raw_size {
                Some(v) => v,
                None => 0,
            }),
    {
        match self.raw_size {
            Some(v) => v,
            None => 0,
        }
    }

    /// Unsets the zlib-compressed data.
    pub fn clear_zlib_data(&mut self)
        ensures
            final(self)@ == (BlobView { zlib_data: None, ..old(self)@ }),
    {
        self.zlib_data = None;
    }

    /// Whether the message carries the zlib-compressed data.
    pub fn has_zlib_data(&self) -> (r: bool)
        ensures
            r == self@.zlib_data is Some,
    {
        self.zlib_data.is_some()
    }

    /// Sets the zlib-compressed data.
    pub fn set_zlib_data(&mut self, v: Vec<u8>)
        ensures
            final(self)@ == (BlobView { zlib_data: Some(v@), ..old(self)@ }),
    {
        self.zlib_data = Some(v);
    }

    /// A mutable reference to the zlib-compressed data, which is first set to the empty byte
    /// string where it was unset.
    pub fn mut_zlib_data(&mut self) -> (r: &mut Vec<u8>)
        ensures
            r@ == bytes_or_empty(old(self)@.zlib_data),
            final(self)@ == (BlobView { zlib_data: Some(final(r)@), ..old(self)@ }),
    {
        self.zlib_data.get_or_insert(Vec::new())
    }

    /// Takes the zlib-compressed data out of the message and leaves the field unset. An unset
    /// field gives the empty byte string.
    pub fn take_zlib_data(&mut self) -> (r: Vec<u8>)
        ensures
            r@ == bytes_or_empty(old(self)@.zlib_data),
            final(self)@ == (BlobView { zlib_data: None, ..old(self)@ }),
    {
        match self.zlib_data.take() {
            Some(v) => v,
            None => Vec::new(),
        }
    }

    /// The zlib-compressed data, or the empty byte string where the field is unset.
    pub fn get_zlib_data(&self) -> (r: &[u8])
        ensures
            r@ == bytes_or_empty(self@.zlib_data),
    {
        match &self.zlib_data {
            Some(v) => v.as_slice(),
            None => &[],
        }
    }

    /// Unsets the LZMA-compressed data.
    pub fn clear_lzma_data(&mut self)
        ensures
            final(self)@ == (BlobView { lzma_data: None, ..old(self)@ }),
    {
        self.lzma_data = None;
    }

    /// Whether the message carries the LZMA-compressed data.
    pub fn has_lzma_data(&self) -> (r: bool)
        ensures
            r == self@.lzma_data is Some,
    {
        self.lzma_data.is_some()
    }

    /// Sets the LZMA-compressed data.
    pub fn set_lzma_data(&mut self, v: Vec<u8>)
        ensures
            final(self)@ == (BlobView { lzma_data: Some(v@), ..old(self)@ }),
    {
        self.lzma_data = Some(v);
    }

    /// A mutable reference to the LZMA-compressed data, which is first set to the empty byte
    /// string where it was unset.
    pub fn mut_lzma_data(&mut self) -> (r: &mut Vec<u8>)
        ensures
            r@ == bytes_or_empty(old(self)@.lzma_data),
            final(self)@ == (BlobView { lzma_data: Some(final(r)@), ..old(self)@ }),
    {
        self.lzma_data.get_or_insert(Vec::new())
    }

    /// Takes the LZMA-compressed data out of the message and leaves the field unset. An unset
    /// field gives the empty byte string.
    pub fn take_lzma_data(&mut self) -> (r: Vec<u8>)
        ensures
            r@ == bytes_or_empty(old(self)@.lzma_data),
            final(self)@ == (BlobView { lzma_data: None, ..old(self)@ }),
    {
        match self.lzma_data.take() {
            Some(v) => v,
            None => Vec::new(),
        }
    }

    /// The LZMA-compressed data, or the empty byte string where the field is unset.
    pub fn get_lzma_data(&self) -> (r: &[u8])
        ensures
            r@ == bytes_or_empty(self@.lzma_data),
    {
        match &self.lzma_data {
            Some(v) => v.as_slice(),
            None => &[],
        }
    }

    /// Unsets the bzip2-compressed data.
    pub fn clear_OBSOLETE_bzip2_data(&mut self)
        ensures
            final(self)@ == (BlobView { OBSOLETE_bzip2_data: None, ..old(self)@ }),
    {
        self.OBSOLETE_bzip2_data = None;
    }

    /// Whether the message carries the bzip2-compressed data.
    pub fn has_OBSOLETE_bzip2_data(&self) -> (r: bool)
        ensures
            r == self@.OBSOLETE_bzip2_data is Some,
    {
        self.OBSOLETE_bzip2_data.is_some()
    }

    /// Sets the bzip2-compressed data.
    pub fn set_OBSOLETE_bzip2_data(&mut self, v: Vec<u8>)
        ensures
            final(self)@ == (BlobView { OBSOLETE_bzip2_data: Some(v@), ..old(self)@ }),
    {
        self.OBSOLETE_bzip2_data = Some(v);
    }

    /// A mutable reference to the bzip2-compressed data, which is first set to the empty byte
    /// string where it was unset.
    pub fn mut_OBSOLETE_bzip2_data(&mut self) -> (r: &mut Vec<u8>)
        ensures
            r@ == bytes_or_empty(old(self)@.OBSOLETE_bzip2_data),
            final(self)@ == (BlobView { OBSOLETE_bzip2_data: Some(final(r)@), ..old(self)@ }),
    {
        self.OBSOLETE_bzip2_data.get_or_insert(Vec::new())
    }

    /// Takes the bzip2-compressed data out of the message and leaves the field unset. An unset
    /// field gives the empty byte string.
    pub fn take_OBSOLETE_bzip2_data(&mut self) -> (r: Vec<u8>)
        ensures
            r@ == bytes_or_empty(old(self)@.OBSOLETE_bzip2_data),
            final(self)@ == (BlobView { OBSOLETE_bzip2_data: None, ..old(self)@ }),
    {
        match self.OBSOLETE_bzip2_data.take() {
            Some(v) => v,
            None => Vec::new(),
        }
    }

    /// The bzip2-compressed data, or the empty byte string where the field is unset.
    pub fn get_OBSOLETE_bzip2_data(&self) -> (r: &[u8])
        ensures
            r@ == bytes_or_empty(self@.OBSOLETE_bzip2_data),
    {
        match &self.OBSOLETE_bzip2_data {
            Some(v) => v.as_slice(),
            None => &[],
        }
    }
}

impl Message for Blob {
    /// Every field is optional.
    open spec fn spec_from_fields(fields: Seq<Field>) -> Result<BlobView, PbfError> {
        let raw = spec_last_bytes(fields, 1);
        let raw_size = spec_optional_int32(fields, 2);
        let zlib_data = spec_last_bytes(fields, 3);
        let lzma_data = spec_last_bytes(fields, 4);
        let bzip2_data = spec_last_bytes(fields, 5);
        if raw is Err {
            Err(raw->Err_0)
        } else if raw_size is Err {
            Err(raw_size->Err_0)
        } else if zlib_data is Err {
            Err(zlib_data->Err_0)
        } else if lzma_data is Err {
            Err(lzma_data->Err_0)
        } else if bzip2_data is Err {
            Err(bzip2_data->Err_0)
        } else {
            Ok(
                BlobView {
                    raw: raw->Ok_0,
                    raw_size: raw_size->Ok_0,
                    zlib_data: zlib_data->Ok_0,
                    lzma_data: lzma_data->Ok_0,
                    OBSOLETE_bzip2_data: bzip2_data->Ok_0,
                },
            )
        }
    }

    fn from_fields(fields: &Vec<WireField>) -> (r: Result<Self, PbfError>) {
        let raw = optional_bytes(fields, 1)?;
        let raw_size = optional_int32(fields, 2)?;
        let zlib_data = optional_bytes(fields, 3)?;
        let lzma_data = optional_bytes(fields, 4)?;
        let bzip2_data = optional_bytes(fields, 5)?;
        Ok(Blob { raw, raw_size, zlib_data, lzma_data, OBSOLETE_bzip2_data: bzip2_data })
    }
}

} // verus!
