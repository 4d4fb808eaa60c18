//! Variable-font tables: `fvar` (axes and named instances) and `avar`
//! (per-axis remapping of normalized coordinates).
//!
//! Axis values and coordinates are kept in the 16.16 fixed-point form in
//! which the tables store them: the integer `65536` stands for `1.0`.

use vstd::prelude::*;
use crate::fixed::{floor_div, lemma_div_exact, lemma_div_monotone};
use crate::font_parser::bytes::{
    expect_i32,
    expect_u16,
    expect_u32,
    fits,
    spec_be_i32,
    spec_be_u16,
    spec_be_u32,
};
use crate::font_parser::error::ParseError;
use crate::font_parser::tag::Tag;

verus! {

/// One design axis of a variable font. Values are 16.16 fixed point.
#[derive(Debug, Clone, Copy, PartialEq)]
pub struct VariationAxis {
    /// Axis tag, such as `wght` or `wdth`.
    pub tag: Tag,
    /// Name-table id of the axis' display name.
    pub name_id: u16,
    /// Smallest value of the axis.
    pub min_value: i32,
    /// Value of the axis in the default instance.
    pub default_value: i32,
    /// Largest value of the axis.
    pub max_value: i32,
}

/// A named instance: one coordinate per axis, in `fvar` axis order.
#[derive(Debug, Clone, PartialEq)]
pub struct NamedInstance {
    /// Name-table id of the instance's subfamily name.
    pub subfamily_name_id: u16,
    /// One 16.16 coordinate per axis.
    pub coordinates: Vec<i32>,
    /// Name-table id of the PostScript name, when the record carries one.
    pub postscript_name_id: Option<u16>,
}

/// What a [`NamedInstance`] holds, as mathematical values.
pub struct NamedInstanceModel {
    /// Name-table id of the instance's subfamily name.
    pub subfamily_name_id: u16,
    /// One 16.16 coordinate per axis.
    pub coordinates: Seq<i32>,
    /// Name-table id of the PostScript name, when the record carries one.
    pub postscript_name_id: Option<u16>,
}

impl View for NamedInstance {
    type V = NamedInstanceModel;

    open spec fn view(&self) -> NamedInstanceModel {
        NamedInstanceModel {
            subfamily_name_id: self.subfamily_name_id,
            coordinates: self.coordinates@,
            postscript_name_id: self.postscript_name_id,
        }
    }
}

/// The `fvar` table: the axes of a variable font and its named instances.
#[derive(Debug, Clone, PartialEq)]
pub struct FvarTable {
    /// Axes, in table order.
    pub axes: Vec<VariationAxis>,
    /// Named instances, in table order.
    pub instances: Vec<NamedInstance>,
}

/// What an [`FvarTable`] holds, as mathematical values.
pub struct FvarModel {
    /// Axes, in table order.
    pub axes: Seq<VariationAxis>,
    /// Named instances, in table order.
    pub instances: Seq<NamedInstanceModel>,
}

impl View for FvarTable {
    type V = FvarModel;

    open spec fn view(&self) -> FvarModel {
        FvarModel {
            axes: self.axes@,
            instances: Seq::new(self.instances@.len(), |j: int| self.instances@[j]@),
        }
    }
}

/// Length in bytes of the `fvar` header.
pub const FVAR_HEADER_LEN: usize = 16;

/// Length in bytes of the fields of one axis record.
pub const FVAR_AXIS_LEN: u64 = 20;

/// Offset of the axis array, from the header.
pub open spec fn spec_fvar_axes_offset(data: Seq<u8>) -> int {
    spec_be_u16(data, 4)
}

/// Number of axes, from the header.
pub open spec fn spec_fvar_axis_count(data: Seq<u8>) -> int {
    spec_be_u16(data, 8)
}

/// Declared size of one axis record, from the header.
pub open spec fn spec_fvar_axis_size(data: Seq<u8>) -> int {
    spec_be_u16(data, 10)
}

/// Number of named instances, from the header.
pub open spec fn spec_fvar_instance_count(data: Seq<u8>) -> int {
    spec_be_u16(data, 12)
}

/// Declared size of one instance record, from the header.
pub open spec fn spec_fvar_instance_size(data: Seq<u8>) -> int {
    spec_be_u16(data, 14)
}

/// Distance between the starts of two consecutive axis records: the 20
/// bytes of fields, or the declared size where that is larger.
pub open spec fn spec_fvar_axis_stride(data: Seq<u8>) -> int {
    if spec_fvar_axis_size(data) > 20 {
        spec_fvar_axis_size(data)
    } else {
        20
    }
}

/// Start of axis record `i`.
pub open spec fn spec_fvar_axis_start(data: Seq<u8>, i: int) -> int {
    spec_fvar_axes_offset(data) + i * spec_fvar_axis_stride(data)
}

/// Whether instance records carry a PostScript name id: they do when the
/// declared size exceeds the subfamily id, the flags and the coordinates.
pub open spec fn spec_fvar_has_postscript_name(data: Seq<u8>) -> bool {
    spec_fvar_instance_size(data) > 4 + 4 * spec_fvar_axis_count(data)
}

/// Number of bytes of one instance record that are read.
pub open spec fn spec_fvar_instance_len(data: Seq<u8>) -> int {
    if spec_fvar_has_postscript_name(data) {
        4 + 4 * spec_fvar_axis_count(data) + 2
    } else {
        4 + 4 * spec_fvar_axis_count(data)
    }
}

/// Distance between the starts of two consecutive instance records.
pub open spec fn spec_fvar_instance_stride(data: Seq<u8>) -> int {
    if spec_fvar_instance_size(data) > spec_fvar_instance_len(data) {
        spec_fvar_instance_size(data)
    } else {
        spec_fvar_instance_len(data)
    }
}

/// Start of instance record `j`: the instances follow the last axis record.
pub open spec fn spec_fvar_instance_start(data: Seq<u8>, j: int) -> int {
    spec_fvar_axis_start(data, spec_fvar_axis_count(data)) + j * spec_fvar_instance_stride(data)
}

/// The axis record stored at `at`.
pub open spec fn spec_fvar_axis_at(data: Seq<u8>, at: int) -> VariationAxis {
    VariationAxis {
        tag: Tag::spec_from_bytes(spec_be_u32(data, at) as u32),
        name_id: spec_be_u16(data, at + 18) as u16,
        min_value: spec_be_i32(data, at + 4) as i32,
        default_value: spec_be_i32(data, at + 8) as i32,
        max_value: spec_be_i32(data, at + 12) as i32,
    }
}

/// The instance record stored at `at`.
pub open spec fn spec_fvar_instance_at(data: Seq<u8>, at: int) -> NamedInstanceModel {
    NamedInstanceModel {
        subfamily_name_id: spec_be_u16(data, at) as u16,
        coordinates: Seq::new(
            spec_fvar_axis_count(data) as nat,
            |k: int| spec_be_i32(data, at + 4 + 4 * k) as i32,
        ),
        postscript_name_id: if spec_fvar_has_postscript_name(data) {
            Some(spec_be_u16(data, at + 4 + 4 * spec_fvar_axis_count(data)) as u16)
        } else {
            None
        },
    }
}

/// Whether the table declares a version other than 1.0.
pub open spec fn spec_fvar_bad_version(data: Seq<u8>) -> bool {
    data.len() >= 4 && !(spec_be_u16(data, 0) == 1 && spec_be_u16(data, 2) == 0)
}

/// Whether every axis record lies inside the table.
pub open spec fn spec_fvar_axes_fit(data: Seq<u8>) -> bool {
    spec_fvar_axis_count(data) > 0 ==> spec_fvar_axis_start(
        data,
        spec_fvar_axis_count(data) - 1,
    ) + 20 <= data.len()
}

/// Whether every instance record lies inside the table.
pub open spec fn spec_fvar_instances_fit(data: Seq<u8>) -> bool {
    spec_fvar_instance_count(data) > 0 ==> spec_fvar_instance_start(
        data,
        spec_fvar_instance_count(data) - 1,
    ) + spec_fvar_instance_len(data) <= data.len()
}

/// Whether the default of an axis lies between its least and its greatest
/// value.
pub open spec fn spec_axis_ordered(axis: VariationAxis) -> bool {
    axis.min_value <= axis.default_value <= axis.max_value
}

/// Whether the default of every axis lies between its least and its
/// greatest value.
pub open spec fn spec_fvar_axes_ordered(data: Seq<u8>) -> bool {
    forall|i: int|
        0 <= i < spec_fvar_axis_count(data) ==> spec_axis_ordered(
            spec_fvar_axis_at(data, #[trigger] spec_fvar_axis_start(data, i)),
        )
}

/// Whether `data` is a well-formed `fvar` table of version 1.0: the header
/// and every record it announces lie inside the data, and the default of
/// every axis lies between its least and its greatest value.
pub open spec fn spec_fvar_valid(data: Seq<u8>) -> bool {
    &&& data.len() >= 16
    &&& !spec_fvar_bad_version(data)
    &&& spec_fvar_axes_fit(data)
    &&& spec_fvar_axes_ordered(data)
    &&& spec_fvar_instances_fit(data)
}

/// The contents of a well-formed `fvar` table.
pub open spec fn spec_fvar(data: Seq<u8>) -> FvarModel {
    FvarModel {
        axes: Seq::new(
            spec_fvar_axis_count(data) as nat,
            |i: int| spec_fvar_axis_at(data, spec_fvar_axis_start(data, i)),
        ),
        instances: Seq::new(
            spec_fvar_instance_count(data) as nat,
            |j: int| spec_fvar_instance_at(data, spec_fvar_instance_start(data, j)),
        ),
    }
}

/// In a well-formed `fvar` table the default of every axis lies between
/// its least and its greatest value.
pub proof fn lemma_fvar_axes_ordered(data: Seq<u8>)
    requires
        spec_fvar_valid(data),
    ensures
        forall|i: int|
            0 <= i < spec_fvar(data).axes.len() ==> spec_axis_ordered(
                #[trigger] spec_fvar(data).axes[i],
            ),
{
    assert forall|i: int| 0 <= i < spec_fvar(data).axes.len() implies spec_axis_ordered(
        #[trigger] spec_fvar(data).axes[i],
    ) by {
        assert(spec_axis_ordered(spec_fvar_axis_at(data, spec_fvar_axis_start(data, i))));
    }
}

/// Record starts grow with the record index.
proof fn lemma_record_start(base: int, stride: int, i: int, n: int)
    requires
        0 <= i <= n,
        0 <= stride,
    ensures
        base + i * stride <= base + n * stride,
        base + (i + 1) * stride == base + i * stride + stride,
{
    assert(i * stride <= n * stride) by (nonlinear_arith)
        requires
            0 <= i <= n,
            0 <= stride,
    ;
    assert((i + 1) * stride == i * stride + stride) by (nonlinear_arith);
}

/// Products of two 16-bit counts stay far below the 64-bit limit.
proof fn lemma_record_bound(i: int, stride: int)
    requires
        0 <= i <= 0xFFFF,
        0 <= stride <= 0x5_0000,
    ensures
        0 <= i * stride <= 0x5_0000_0000,
{
    assert(0 <= i * stride <= 0x5_0000_0000) by (nonlinear_arith)
        requires
            0 <= i <= 0xFFFF,
            0 <= stride <= 0x5_0000,
    ;
}

impl FvarTable {
    /// Decodes an `fvar` table.
    ///
    /// Fails with `UnsupportedVersion` when the table announces a version
    /// other than 1.0, and with `CorruptedData` when the header or a record
    /// it announces runs past the end of `data`, or when the default of an
    /// axis does not lie between its least and its greatest value.
    pub fn parse(data: &[u8]) -> (r: Result<FvarTable, ParseError>)
        ensures
            r is Ok <==> spec_fvar_valid(data@),
            r matches Ok(table) ==> table@ == spec_fvar(data@) && forall|i: int|
                0 <= i < table.axes@.len() ==> spec_axis_ordered(#[trigger] table.axes@[i]),
            r matches Err(e) ==> (e is UnsupportedVersion <==> spec_fvar_bad_version(data@)) && (e
                is UnsupportedVersion || e is CorruptedData),
    {
        proof {
            if spec_fvar_valid(data@) {
                lemma_fvar_axes_ordered(data@);
            }
        }
        let major_version: u16 = expect_u16(data, 0, "fvar version")?;
        let minor_version: u16 = expect_u16(data, 2, "fvar minor version")?;
        if major_version != 1 || minor_version != 0 {
            return Err(ParseError::UnsupportedVersion);
        }
        let axes_array_offset: u16 = expect_u16(data, 4, "axes offset")?;
        let _reserved: u16 = expect_u16(data, 6, "reserved field")?;
        let axis_count: u16 = expect_u16(data, 8, "axis count")?;
        let axis_size: u16 = expect_u16(data, 10, "axis size")?;
        let instance_count: u16 = expect_u16(data, 12, "instance count")?;
        let instance_size: u16 = expect_u16(data, 14, "instance size")?;

        let axis_stride: u64 = if axis_size > 20 {
            axis_size as u64
        } else {
            20
        };
        let ghost bytes = data@;
        let len: usize = data.len();
        let mut axes: Vec<VariationAxis> = Vec::new();
        let mut pos: u64 = axes_array_offset as u64;
        let mut i: u16 = 0;
        proof {
            lemma_record_start(spec_fvar_axes_offset(bytes), axis_stride as int, 0, 0);
        }
        while i < axis_count
            invariant
                bytes == data@,
                len == bytes.len(),
                bytes.len() >= 16,
                !spec_fvar_bad_version(bytes),
                axis_count == spec_fvar_axis_count(bytes),
                axis_stride == spec_fvar_axis_stride(bytes),
                axes_array_offset == spec_fvar_axes_offset(bytes),
                20 <= axis_stride <= 0xFFFF,
                i <= axis_count,
                pos == spec_fvar_axis_start(bytes, i as int),
                pos <= 0x5_0001_0000,
                axes@.len() == i,
                forall|k: int|
                    0 <= k < i ==> #[trigger] axes@[k] == spec_fvar_axis_at(
                        bytes,
                        spec_fvar_axis_start(bytes, k),
                    ),
                i > 0 ==> spec_fvar_axis_start(bytes, i - 1) + 20 <= bytes.len(),
                forall|k: int|
                    0 <= k < i ==> spec_axis_ordered(
                        spec_fvar_axis_at(bytes, #[trigger] spec_fvar_axis_start(bytes, k)),
                    ),
            decreases axis_count - i,
        {
            proof {
                lemma_record_start(
                    spec_fvar_axes_offset(bytes),
                    axis_stride as int,
                    i as int,
                    axis_count as int - 1,
                );
                lemma_record_bound(i as int + 1, axis_stride as int);
            }
            if !fits(data, pos, FVAR_AXIS_LEN) {
                return Err(ParseError::corrupted("axis record"));
            }
            let at: usize = pos as usize;
            let tag_bytes: u32 = expect_u32(data, at, "axis tag")?;
            let min_value: i32 = expect_i32(data, at + 4, "axis min")?;
            let default_value: i32 = expect_i32(data, at + 8, "axis default")?;
            let max_value: i32 = expect_i32(data, at + 12, "axis max")?;
            let _flags: u16 = expect_u16(data, at + 16, "axis flags")?;
            let name_id: u16 = expect_u16(data, at + 18, "axis name_id")?;
            if min_value > default_value || default_value > max_value {
                proof {
                    assert(!spec_axis_ordered(
                        spec_fvar_axis_at(bytes, spec_fvar_axis_start(bytes, i as int)),
                    ));
                }
                return Err(ParseError::corrupted("axis default outside its range"));
            }
            axes.push(
                VariationAxis {
                    tag: Tag::from_bytes(tag_bytes),
                    name_id,
                    min_value,
                    default_value,
                    max_value,
                },
            );
            pos = pos + axis_stride;
            i = i + 1;
        }

        let base_len: u64 = 4 + 4 * (axis_count as u64);
        let has_postscript_name: bool = instance_size as u64 > base_len;
        let record_len: u64 = if has_postscript_name {
            base_len + 2
        } else {
            base_len
        };
        let instance_stride: u64 = if instance_size as u64 > record_len {
            instance_size as u64
        } else {
            record_len
        };
        let mut instances: Vec<NamedInstance> = Vec::new();
        let mut j: u16 = 0;
        proof {
            lemma_record_start(
                spec_fvar_instance_start(bytes, 0),
                instance_stride as int,
                0,
                0,
            );
        }
        while j < instance_count
            invariant
                bytes == data@,
                len == bytes.len(),
                bytes.len() >= 16,
                !spec_fvar_bad_version(bytes),
                spec_fvar_axes_fit(bytes),
                spec_fvar_axes_ordered(bytes),
                axis_count == spec_fvar_axis_count(bytes),
                instance_count == spec_fvar_instance_count(bytes),
                has_postscript_name == spec_fvar_has_postscript_name(bytes),
                base_len == 4 + 4 * axis_count,
                record_len == spec_fvar_instance_len(bytes),
                instance_stride == spec_fvar_instance_stride(bytes),
                4 <= record_len <= instance_stride <= 0x5_0000,
                j <= instance_count,
                pos == spec_fvar_instance_start(bytes, j as int),
                pos <= 0x5_0001_0000 + j * 0x5_0000,
                instances@.len() == j,
                forall|k: int|
                    0 <= k < j ==> (#[trigger] instances@[k])@ == spec_fvar_instance_at(
                        bytes,
                        spec_fvar_instance_start(bytes, k),
                    ),
                j > 0 ==> spec_fvar_instance_start(bytes, j - 1) + record_len <= bytes.len(),
            decreases instance_count - j,
        {
            proof {
                lemma_record_start(
                    spec_fvar_instance_start(bytes, 0),
                    instance_stride as int,
                    j as int,
                    instance_count as int - 1,
                );
            }
            if !fits(data, pos, record_len) {
                return Err(ParseError::corrupted("instance record"));
            }
            let at: usize = pos as usize;
            let subfamily_name_id: u16 = expect_u16(data, at, "instance subfamily_name_id")?;
            let _flags: u16 = expect_u16(data, at + 2, "instance flags")?;
            let mut coordinates: Vec<i32> = Vec::new();
            let mut k: u16 = 0;
            while k < axis_count
                invariant
                    bytes == data@,
                    len == bytes.len(),
                    k <= axis_count,
                    at + 4 + 4 * axis_count <= bytes.len(),
                    coordinates@.len() == k,
                    forall|m: int|
                        0 <= m < k ==> #[trigger] coordinates@[m] == spec_be_i32(
                            bytes,
                            at + 4 + 4 * m,
                        ) as i32,
                decreases axis_count - k,
            {
                let coord: i32 = expect_i32(data, at + 4 + 4 * (k as usize), "instance coord")?;
                coordinates.push(coord);
                k = k + 1;
            }
            let postscript_name_id: Option<u16> = if has_postscript_name {
                Some(
                    expect_u16(
                        data,
                        at + 4 + 4 * (axis_count as usize),
                        "instance postscript_name_id",
                    )?,
                )
            } else {
                None
            };
            let instance = NamedInstance { subfamily_name_id, coordinates, postscript_name_id };
            proof {
                assert(instance@.coordinates =~= spec_fvar_instance_at(
                    bytes,
                    at as int,
                ).coordinates);
            }
            instances.push(instance);
            pos = pos + instance_stride;
            j = j + 1;
        }
        let table = FvarTable { axes, instances };
        proof {
            assert(table@.axes =~= spec_fvar(bytes).axes);
            assert(table@.instances =~= spec_fvar(bytes).instances);
        }
        Ok(table)
    }

    /// The first axis with the given tag, if there is one.
    pub fn get_axis(&self, tag: Tag) -> (r: Option<&VariationAxis>)
        ensures
            r is Some <==> exists|i: int| 0 <= i < self.axes@.len() && self.axes@[i].tag@ == tag@,
            r matches Some(axis) ==> exists|i: int|
                0 <= i < self.axes@.len() && self.axes@[i] == *axis && axis.tag@ == tag@
                    && forall|k: int| 0 <= k < i ==> self.axes@[k].tag@ != tag@,
    {
        let mut i: usize = 0;
        while i < self.axes.len()
            invariant
                i <= self.axes@.len(),
                forall|k: int| 0 <= k < i ==> self.axes@[k].tag@ != tag@,
            decreases self.axes@.len() - i,
        {
            if self.axes[i].tag.same(&tag) {
                return Some(&self.axes[i]);
            }
            i = i + 1;
        }
        None
    }

    /// Whether the table declares at least one axis.
    pub fn is_variable(&self) -> (b: bool)
        ensures
            b == (self.axes@.len() > 0),
    {
        self.axes.len() > 0
    }
}

/// The segment map of one axis: `(from, to)` pairs in 16.16 fixed point.
#[derive(Debug, Clone, PartialEq)]
pub struct AxisSegmentMap {
    /// `(from, to)` pairs, in table order.
    pub mappings: Vec<(i32, i32)>,
}

/// The `avar` table: one segment map per axis.
#[derive(Debug, Clone, PartialEq)]
pub struct AvarTable {
    /// Segment maps, one per axis, in `fvar` axis order.
    pub axis_segment_maps: Vec<AxisSegmentMap>,
}

impl View for AvarTable {
    type V = Seq<Seq<(i32, i32)>>;

    /// The segment maps as sequences of `(from, to)` pairs.
    open spec fn view(&self) -> Seq<Seq<(i32, i32)>> {
        Seq::new(self.axis_segment_maps@.len(), |i: int| self.axis_segment_maps@[i].mappings@)
    }
}

/// Number of axes announced by the `avar` header.
pub open spec fn spec_avar_axis_count(data: Seq<u8>) -> int {
    spec_be_u16(data, 6)
}

/// Whether the table declares a version other than 1.0.
pub open spec fn spec_avar_bad_version(data: Seq<u8>) -> bool {
    data.len() >= 4 && !(spec_be_u16(data, 0) == 1 && spec_be_u16(data, 2) == 0)
}

/// Start of the segment map of axis `i`: the maps follow the 8-byte header,
/// each a 16-bit pair count followed by that many 8-byte pairs.
pub open spec fn spec_avar_map_start(data: Seq<u8>, i: nat) -> int
    decreases i,
{
    if i == 0 {
        8
    } else {
        let prev = spec_avar_map_start(data, (i - 1) as nat);
        prev + 2 + 8 * spec_be_u16(data, prev)
    }
}

/// Whether the first `n` segment maps lie inside the table.
pub open spec fn spec_avar_maps_fit(data: Seq<u8>, n: nat) -> bool
    decreases n,
{
    if n == 0 {
        true
    } else {
        let start = spec_avar_map_start(data, (n - 1) as nat);
        &&& spec_avar_maps_fit(data, (n - 1) as nat)
        &&& start + 2 <= data.len()
        &&& start + 2 + 8 * spec_be_u16(data, start) <= data.len()
    }
}

/// The segment map stored at `start`.
pub open spec fn spec_avar_map_at(data: Seq<u8>, start: int) -> Seq<(i32, i32)> {
    Seq::new(
        spec_be_u16(data, start) as nat,
        |j: int|
            (
                spec_be_i32(data, start + 2 + 8 * j) as i32,
                spec_be_i32(data, start + 2 + 8 * j + 4) as i32,
            ),
    )
}

/// Whether `data` is a well-formed `avar` table of version 1.0 for a font
/// with `axis_count` axes.
pub open spec fn spec_avar_valid(data: Seq<u8>, axis_count: nat) -> bool {
    &&& data.len() >= 8
    &&& !spec_avar_bad_version(data)
    &&& spec_avar_axis_count(data) == axis_count
    &&& spec_avar_maps_fit(data, axis_count)
}

/// The contents of a well-formed `avar` table.
pub open spec fn spec_avar(data: Seq<u8>, axis_count: nat) -> Seq<Seq<(i32, i32)>> {
    Seq::new(axis_count, |i: int| spec_avar_map_at(data, spec_avar_map_start(data, i as nat)))
}

/// A prefix of maps that fit: fitting is inherited by every shorter prefix.
proof fn lemma_avar_fit_prefix(data: Seq<u8>, m: nat, n: nat)
    requires
        m <= n,
        spec_avar_maps_fit(data, n),
    ensures
        spec_avar_maps_fit(data, m),
    decreases n,
{
    if m < n {
        lemma_avar_fit_prefix(data, m, (n - 1) as nat);
    }
}

/// The value between `to1` and `to2` that corresponds to `value` between
/// `from1` and `from2`, rounded toward negative infinity.
pub open spec fn spec_interpolate(from1: int, to1: int, from2: int, to2: int, value: int) -> int {
    if from2 == from1 {
        to1
    } else {
        to1 + ((value - from1) * (to2 - to1)) / (from2 - from1)
    }
}

/// The image of `value` under the segment map `mappings`, searching from
/// pair `k` on: the first segment that contains `value` interpolates it; a
/// value that no segment contains maps to itself.
pub open spec fn spec_map_from(mappings: Seq<(i32, i32)>, k: int, value: int) -> int
    decreases mappings.len() - k,
{
    if k < 0 || k + 1 >= mappings.len() {
        value
    } else if mappings[k].0 <= value <= mappings[k + 1].0 {
        spec_interpolate(
            mappings[k].0 as int,
            mappings[k].1 as int,
            mappings[k + 1].0 as int,
            mappings[k + 1].1 as int,
            value,
        )
    } else {
        spec_map_from(mappings, k + 1, value)
    }
}

/// The image of `value` under the segment map `mappings`.
pub open spec fn spec_map_value(mappings: Seq<(i32, i32)>, value: int) -> int {
    spec_map_from(mappings, 0, value)
}

/// An interpolated value lies between the two `to` values of its segment.
pub proof fn lemma_interpolate_between(from1: int, to1: int, from2: int, to2: int, value: int)
    requires
        from1 <= value <= from2,
    ensures
        to1 <= to2 ==> to1 <= spec_interpolate(from1, to1, from2, to2, value) <= to2,
        to2 <= to1 ==> to2 <= spec_interpolate(from1, to1, from2, to2, value) <= to1,
{
    if from2 != from1 {
        let d = from2 - from1;
        let x = value - from1;
        let t = to2 - to1;
        lemma_div_exact(t, d);
        lemma_div_exact(0, d);
        assert(0 * d == 0);
        if t >= 0 {
            assert(0 <= x * t <= t * d) by (nonlinear_arith)
                requires
                    0 <= x <= d,
                    t >= 0,
            ;
            lemma_div_monotone(0, x * t, t * d, d);
        } else {
            assert(t * d <= x * t <= 0) by (nonlinear_arith)
                requires
                    0 <= x <= d,
                    t < 0,
            ;
            lemma_div_monotone(t * d, x * t, 0, d);
        }
    }
}

/// Interpolation inside a segment that maps both of its ends to themselves
/// maps every value to itself.
pub proof fn lemma_interpolate_identity(from1: int, from2: int, value: int)
    requires
        from1 <= value <= from2,
    ensures
        spec_interpolate(from1, from1, from2, from2, value) == value,
{
    if from2 != from1 {
        lemma_div_exact(value - from1, from2 - from1);
    }
}

/// A segment map in which every pair maps a coordinate to itself leaves
/// every value unchanged, inside the mapped range and outside it.
pub proof fn lemma_identity_map(mappings: Seq<(i32, i32)>, k: int, value: int)
    requires
        0 <= k,
        forall|i: int| 0 <= i < mappings.len() ==> (#[trigger] mappings[i]).0 == mappings[i].1,
    ensures
        spec_map_from(mappings, k, value) == value,
    decreases mappings.len() - k,
{
    if k + 1 < mappings.len() {
        if mappings[k].0 <= value <= mappings[k + 1].0 {
            lemma_interpolate_identity(mappings[k].0 as int, mappings[k + 1].0 as int, value);
        } else {
            lemma_identity_map(mappings, k + 1, value);
        }
    }
}

/// The image of a 16.16 value under a segment map is again a 16.16 value.
pub proof fn lemma_map_in_range(mappings: Seq<(i32, i32)>, k: int, value: i32)
    requires
        0 <= k,
    ensures
        i32::MIN <= spec_map_from(mappings, k, value as int) <= i32::MAX,
    decreases mappings.len() - k,
{
    if k + 1 < mappings.len() {
        if mappings[k].0 <= value <= mappings[k + 1].0 {
            lemma_interpolate_between(
                mappings[k].0 as int,
                mappings[k].1 as int,
                mappings[k + 1].0 as int,
                mappings[k + 1].1 as int,
                value as int,
            );
        } else {
            lemma_map_in_range(mappings, k + 1, value);
        }
    }
}

impl AxisSegmentMap {
    /// Maps `value` through this segment map; see [`spec_map_value`].
    pub fn map_value(&self, value: i32) -> (mapped: i32)
        ensures
            mapped == spec_map_value(self.mappings@, value as int),
    {
        let n: usize = self.mappings.len();
        if n < 2 {
            return value;
        }
        let mut k: usize = 0;
        while k < n - 1
            invariant
                n == self.mappings@.len(),
                n >= 2,
                spec_map_value(self.mappings@, value as int) == spec_map_from(
                    self.mappings@,
                    k as int,
                    value as int,
                ),
            decreases n - k,
        {
            let (from1, to1) = self.mappings[k];
            let (from2, to2) = self.mappings[k + 1];
            if value >= from1 && value <= from2 {
                proof {
                    lemma_map_in_range(self.mappings@, k as int, value);
                }
                if from2 == from1 {
                    return to1;
                }
                let x: i128 = value as i128 - from1 as i128;
                let t: i128 = to2 as i128 - to1 as i128;
                let d: i128 = from2 as i128 - from1 as i128;
                assert(-0x1_0000_0000_0000_0000 <= x * t <= 0x1_0000_0000_0000_0000)
                    by (nonlinear_arith)
                    requires
                        0 <= x <= 0xFFFF_FFFF,
                        -0xFFFF_FFFF <= t <= 0xFFFF_FFFF,
                ;
                let q: i128 = floor_div(x * t, d);
                return (to1 as i128 + q) as i32;
            }
            k = k + 1;
        }
        value
    }
}

impl AvarTable {
    /// Decodes an `avar` table for a font with `axis_count` axes.
    ///
    /// Fails with `UnsupportedVersion` when the table announces a version
    /// other than 1.0, and with `CorruptedData` when the header or a segment
    /// map runs past the end of `data` or the table's axis count differs from
    /// `axis_count`.
    pub fn parse(data: &[u8], axis_count: usize) -> (r: Result<AvarTable, ParseError>)
        ensures
            r is Ok <==> spec_avar_valid(data@, axis_count as nat),
            r matches Ok(table) ==> table@ == spec_avar(data@, axis_count as nat),
            r matches Err(e) ==> (e is UnsupportedVersion <==> spec_avar_bad_version(data@)) && (e
                is UnsupportedVersion || e is CorruptedData),
    {
        let major_version: u16 = expect_u16(data, 0, "avar version")?;
        let minor_version: u16 = expect_u16(data, 2, "avar minor version")?;
        if major_version != 1 || minor_version != 0 {
            return Err(ParseError::UnsupportedVersion);
        }
        let _reserved: u16 = expect_u16(data, 4, "reserved field")?;
        let axis_count_avar: u16 = expect_u16(data, 6, "axis count")?;
        if axis_count_avar as usize != axis_count {
            return Err(ParseError::corrupted("avar axis count mismatch"));
        }
        let ghost bytes = data@;
        let len: usize = data.len();
        let mut axis_segment_maps: Vec<AxisSegmentMap> = Vec::new();
        let mut pos: usize = 8;
        let mut i: usize = 0;
        while i < axis_count
            invariant
                bytes == data@,
                len == bytes.len(),
                bytes.len() >= 8,
                !spec_avar_bad_version(bytes),
                axis_count == spec_avar_axis_count(bytes),
                i <= axis_count,
                pos == spec_avar_map_start(bytes, i as nat),
                pos <= bytes.len(),
                spec_avar_maps_fit(bytes, i as nat),
                axis_segment_maps@.len() == i,
                forall|k: int|
                    0 <= k < i ==> (#[trigger] axis_segment_maps@[k]).mappings@
                        == spec_avar_map_at(bytes, spec_avar_map_start(bytes, k as nat)),
            decreases axis_count - i,
        {
            proof {
                if spec_avar_maps_fit(bytes, axis_count as nat) {
                    lemma_avar_fit_prefix(bytes, (i + 1) as nat, axis_count as nat);
                }
            }
            let position_map_count: u16 = expect_u16(data, pos, "axis position_map_count")?;
            if !fits(data, pos as u64 + 2, 8 * (position_map_count as u64)) {
                return Err(ParseError::corrupted("axis segment map"));
            }
            let mut mappings: Vec<(i32, i32)> = Vec::new();
            let mut j: usize = 0;
            while j < position_map_count as usize
                invariant
                    bytes == data@,
                    len == bytes.len(),
                    j <= position_map_count,
                    pos + 2 + 8 * position_map_count <= bytes.len(),
                    position_map_count == spec_be_u16(bytes, pos as int),
                    mappings@.len() == j,
                    forall|m: int|
                        0 <= m < j ==> #[trigger] mappings@[m] == spec_avar_map_at(
                            bytes,
                            pos as int,
                        )[m],
                decreases position_map_count - j,
            {
                let from_coord: i32 = expect_i32(data, pos + 2 + 8 * j, "axis mapping from")?;
                let to_coord: i32 = expect_i32(data, pos + 2 + 8 * j + 4, "axis mapping to")?;
                mappings.push((from_coord, to_coord));
                j = j + 1;
            }
            proof {
                assert(mappings@ =~= spec_avar_map_at(bytes, pos as int));
            }
            axis_segment_maps.push(AxisSegmentMap { mappings });
            pos = pos + 2 + 8 * (position_map_count as usize);
            i = i + 1;
        }
        let table = AvarTable { axis_segment_maps };
        proof {
            assert(table@ =~= spec_avar(bytes, axis_count as nat));
        }
        Ok(table)
    }

    /// Maps `value` on axis `axis_index` through that axis' segment map. An
    /// axis index that the table does not have leaves the value unchanged.
    pub fn map_value(&self, axis_index: usize, value: i32) -> (mapped: i32)
        ensures
            axis_index < self@.len() ==> mapped == spec_map_value(
                self@[axis_index as int],
                value as int,
            ),
            axis_index >= self@.len() ==> mapped == value,
    {
        if axis_index >= self.axis_segment_maps.len() {
            return value;
        }
        self.axis_segment_maps[axis_index].map_value(value)
    }
}

/// A set of axis coordinates: at most one 16.16 value per axis tag, in the
/// order in which the tags were first set.
#[derive(Debug, Clone, PartialEq)]
pub struct VariationCoordinates {
    /// `(tag, value)` pairs.
    pub values: Vec<(Tag, i32)>,
}

/// Position of the first pair of `values` with the bytes `tag`, or the
/// length of `values` when there is none.
pub open spec fn spec_find_axis(values: Seq<(Tag, i32)>, tag: Seq<u8>) -> int
    decreases values.len(),
{
    if values.len() == 0 {
        0
    } else if values[0].0@ == tag {
        0
    } else {
        1 + spec_find_axis(values.drop_first(), tag)
    }
}

/// `spec_find_axis` is the first index whose tag matches.
pub proof fn lemma_find_axis(values: Seq<(Tag, i32)>, tag: Seq<u8>)
    ensures
        0 <= spec_find_axis(values, tag) <= values.len(),
        spec_find_axis(values, tag) < values.len() ==> values[spec_find_axis(values, tag)].0@
            == tag,
        forall|k: int| 0 <= k < spec_find_axis(values, tag) ==> (#[trigger] values[k]).0@ != tag,
    decreases values.len(),
{
    if values.len() > 0 && values[0].0@ != tag {
        let rest = values.drop_first();
        lemma_find_axis(rest, tag);
        assert forall|k: int| 0 <= k < spec_find_axis(values, tag) implies (
        #[trigger] values[k]).0@ != tag by {
            if k > 0 {
                assert(values[k] == rest[k - 1]);
            }
        }
    }
}

/// An index whose tag matches, and before which no tag matches, is the one
/// that `spec_find_axis` finds; with no match at all it finds the length.
pub proof fn lemma_find_first(values: Seq<(Tag, i32)>, tag: Seq<u8>, i: int)
    requires
        0 <= i <= values.len(),
        i < values.len() ==> values[i].0@ == tag,
        forall|k: int| 0 <= k < i ==> (#[trigger] values[k]).0@ != tag,
    ensures
        spec_find_axis(values, tag) == i,
{
    lemma_find_axis(values, tag);
    let f = spec_find_axis(values, tag);
    if f < i {
        assert(values[f].0@ == tag);
    }
}

impl VariationCoordinates {
    /// Whether no tag occurs twice.
    pub open spec fn spec_distinct(self) -> bool {
        forall|i: int, j: int|
            0 <= i < j < self.values@.len() ==> (#[trigger] self.values@[i]).0@ != (
            #[trigger] self.values@[j]).0@
    }

    /// The value set for `tag`, if any.
    pub open spec fn spec_get(self, tag: Seq<u8>) -> Option<i32> {
        let i = spec_find_axis(self.values@, tag);
        if i < self.values@.len() {
            Some(self.values@[i].1)
        } else {
            None
        }
    }

    /// An empty set of coordinates.
    pub fn new() -> (c: VariationCoordinates)
        ensures
            c.values@.len() == 0,
            c.spec_distinct(),
    {
        VariationCoordinates { values: Vec::new() }
    }

    /// Index of the first pair with the given tag.
    fn find(&self, tag: Tag) -> (i: usize)
        ensures
            i == spec_find_axis(self.values@, tag@),
            i <= self.values@.len(),
    {
        let mut i: usize = 0;
        while i < self.values.len()
            invariant
                i <= self.values@.len(),
                forall|k: int| 0 <= k < i ==> (#[trigger] self.values@[k]).0@ != tag@,
            decreases self.values@.len() - i,
        {
            if self.values[i].0.same(&tag) {
                proof {
                    lemma_find_first(self.values@, tag@, i as int);
                }
                return i;
            }
            i = i + 1;
        }
        proof {
            lemma_find_first(self.values@, tag@, i as int);
        }
        i
    }

    /// Sets the coordinate of `tag`: updates the pair in place when the tag
    /// is already present, and appends a pair otherwise.
    pub fn set_axis(&mut self, tag: Tag, value: i32)
        ensures
            final(self).spec_get(tag@) == Some(value),
            old(self).spec_get(tag@) is Some ==> final(self).values@ == old(self).values@.update(
                spec_find_axis(old(self).values@, tag@),
                (old(self).values@[spec_find_axis(old(self).values@, tag@)].0, value),
            ),
            old(self).spec_get(tag@) is None ==> final(self).values@ == old(self).values@.push(
                (tag, value),
            ),
            old(self).spec_distinct() ==> final(self).spec_distinct(),
            forall|other: Seq<u8>|
                other != tag@ ==> final(self).spec_get(other) == old(self).spec_get(other),
    {
        let i: usize = self.find(tag);
        let ghost before = self.values@;
        proof {
            lemma_find_axis(before, tag@);
        }
        if i < self.values.len() {
            let existing: Tag = self.values[i].0;
            self.values.set(i, (existing, value));
        } else {
            self.values.push((tag, value));
        }
        proof {
            let after = self.values@;
            assert forall|k: int| 0 <= k < before.len() implies (#[trigger] after[k]).0@
                == before[k].0@ by {}
            lemma_find_first(after, tag@, i as int);
            assert forall|other: Seq<u8>| other != tag@ implies self.spec_get(other) == old(
                self,
            ).spec_get(other) by {
                lemma_find_axis(before, other);
                let a = spec_find_axis(before, other);
                if a < before.len() {
                    assert(after[a].0@ == before[a].0@);
                    assert forall|k: int| 0 <= k < a implies (#[trigger] after[k]).0@ != other by {
                        assert(after[k].0@ == before[k].0@);
                    }
                    lemma_find_first(after, other, a);
                } else {
                    assert forall|k: int| 0 <= k < after.len() implies (#[trigger] after[k]).0@
                        != other by {
                        if k < before.len() {
                            assert(after[k].0@ == before[k].0@);
                        }
                    }
                    lemma_find_first(after, other, after.len() as int);
                }
            }
            if old(self).spec_distinct() {
                assert forall|a: int, b: int| 0 <= a < b < after.len() implies (
                #[trigger] after[a]).0@ != (#[trigger] after[b]).0@ by {
                    if b < before.len() {
                        assert(after[a].0@ == before[a].0@);
                        assert(after[b].0@ == before[b].0@);
                    } else {
                        assert(after[a].0@ == before[a].0@);
                    }
                }
            }
        }
    }

    /// The coordinate set for `tag`, if any.
    pub fn get_axis(&self, tag: Tag) -> (r: Option<i32>)
        ensures
            r == self.spec_get(tag@),
    {
        let i: usize = self.find(tag);
        if i < self.values.len() {
            Some(self.values[i].1)
        } else {
            None
        }
    }
}

} // verus!
