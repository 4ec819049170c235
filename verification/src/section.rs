//! A named memory region with optional access attributes and a
//! page-size granularity, together with its transformations: shifting
//! by an offset, setting attributes or page size, and dividing the
//! page-aligned usable range into equal slots.

use crate::errors::MemoryError;
use crate::render::hex_text;
use crate::render::spec_hex_text;
use vstd::prelude::*;
use vstd::string::StrSliceExecFns;
use vstd::string::StringExecFns;

verus! {

/// One named address range of a linker-script `MEMORY` block.
///
/// A section is immutable once constructed: every transformation
/// consumes the prior value and returns a new one.
#[derive(Debug)]
pub struct MemorySection {
    name: String,
    attrs: Option<String>,
    origin: u64,
    length: u64,
    pagesize: u64,
}

/// The mathematical value of a [`MemorySection`].
pub ghost struct SectionView {
    pub name: Seq<char>,
    pub attrs: Option<Seq<char>>,
    pub origin: u64,
    pub length: u64,
    pub pagesize: u64,
}

impl View for MemorySection {
    type V = SectionView;

    closed spec fn view(&self) -> SectionView {
        SectionView {
            name: self.name@,
            attrs: match self.attrs {
                Some(a) => Some(a@),
                None => None,
            },
            origin: self.origin,
            length: self.length,
            pagesize: self.pagesize,
        }
    }
}

/// `v` rounded up to the next multiple of `a`.
pub open spec fn spec_align_up(v: int, a: int) -> int {
    if v % a == 0 {
        v
    } else {
        v + (a - v % a)
    }
}

/// `v` rounded down to the previous multiple of `a`.
pub open spec fn spec_align_down(v: int, a: int) -> int {
    v - v % a
}

/// The length of the page-aligned usable range of `s`: from its origin
/// rounded up to its end rounded down.  Negative when alignment
/// collapses the range.
pub open spec fn spec_usable(s: SectionView) -> int {
    spec_align_down(s.origin + s.length, s.pagesize as int) - spec_align_up(
        s.origin as int,
        s.pagesize as int,
    )
}

/// The common length of the `total` slots of `s`: an equal share of
/// the usable range, rounded down to a multiple of the page size.
pub open spec fn spec_slot_length(s: SectionView, total: int) -> int {
    spec_align_down(spec_usable(s) / total, s.pagesize as int)
}

/// The origin of slot `index` of `total` in `s`.
pub open spec fn spec_slot_origin(s: SectionView, index: int, total: int) -> int {
    spec_align_up(s.origin as int, s.pagesize as int) + index * spec_slot_length(s, total)
}

/// What [`MemorySection::offset`] returns: the section shifted forward
/// by `d` and shortened by the same amount, or `InvalidOffset` when
/// `d` exceeds the remaining length.
pub open spec fn spec_offset_result(s: SectionView, d: u64) -> Result<SectionView, MemoryError> {
    if d <= s.length {
        Ok(
            SectionView {
                origin: (s.origin + d) as u64,
                length: (s.length - d) as u64,
                ..s
            },
        )
    } else {
        Err(MemoryError::InvalidOffset)
    }
}

/// What [`MemorySection::pagesize`] returns: the section with the new
/// page size, or `InvalidPageSize` for zero.
pub open spec fn spec_pagesize_result(s: SectionView, p: u64) -> Result<SectionView, MemoryError> {
    if p > 0 {
        Ok(SectionView { pagesize: p, ..s })
    } else {
        Err(MemoryError::InvalidPageSize)
    }
}

/// What [`MemorySection::slot`] returns: slot `index` of `total`, or
/// the error naming the first precondition that fails.
pub open spec fn spec_slot_result(s: SectionView, index: int, total: int) -> Result<
    SectionView,
    MemoryError,
> {
    if index >= total {
        Err(MemoryError::InvalidSlotIndex)
    } else if s.pagesize == 0 {
        Err(MemoryError::InvalidPageSize)
    } else if spec_align_up(s.origin as int, s.pagesize as int) > spec_align_down(
        s.origin + s.length,
        s.pagesize as int,
    ) {
        Err(MemoryError::RegionTooSmall)
    } else {
        Ok(
            SectionView {
                origin: spec_slot_origin(s, index, total) as u64,
                length: spec_slot_length(s, total) as u64,
                ..s
            },
        )
    }
}

/// The rendered attribute part: `(attrs)` when present, empty when
/// absent.
pub open spec fn spec_attrs_text(attrs: Option<Seq<char>>) -> Seq<char> {
    match attrs {
        Some(a) => "("@ + a + ")"@,
        None => Seq::empty(),
    }
}

/// The linker-script line of one section: both address fields in
/// `0x`-prefixed uppercase hexadecimal.
pub open spec fn spec_section_text(s: SectionView) -> Seq<char> {
    "    "@ + s.name + " "@ + spec_attrs_text(s.attrs) + ": ORIGIN = "@ + spec_hex_text(s.origin)
        + ", LENGTH = "@ + spec_hex_text(s.length) + "\n"@
}

impl MemorySection {
    /// A new section covering `[origin, origin + length)`, with no
    /// attributes and a page size of one.  Addresses are not validated
    /// here; transformations check what they need.
    pub fn new(name: &str, origin: u64, length: u64) -> (r: MemorySection)
        ensures
            r@ == (SectionView {
                name: name@,
                attrs: None::<Seq<char>>,
                origin: origin,
                length: length,
                pagesize: 1u64,
            }),
    {
        MemorySection {
            name: String::from_str(name),
            attrs: None,
            origin,
            length,
            pagesize: 1,
        }
    }

    /// The section shifted forward by `offset` bytes and shortened by
    /// the same amount; `InvalidOffset` when `offset` exceeds the
    /// length.
    pub fn offset(self, offset: u64) -> (r: Result<MemorySection, MemoryError>)
        requires
            self@.origin + self@.length <= u64::MAX,
        ensures
            offset <= self@.length ==> (r matches Ok(sec) && sec@ == (SectionView {
                origin: (self@.origin + offset) as u64,
                length: (self@.length - offset) as u64,
                ..self@
            })),
            offset > self@.length ==> r == Err::<MemorySection, MemoryError>(
                MemoryError::InvalidOffset,
            ),
            r matches Ok(sec) ==> spec_offset_result(self@, offset) == Ok::<
                SectionView,
                MemoryError,
            >(sec@),
            r matches Err(e) ==> spec_offset_result(self@, offset) == Err::<
                SectionView,
                MemoryError,
            >(e),
    {
        if offset > self.length {
            Err(MemoryError::InvalidOffset)
        } else {
            Ok(
                MemorySection {
                    name: self.name,
                    attrs: self.attrs,
                    origin: self.origin + offset,
                    length: self.length - offset,
                    pagesize: self.pagesize,
                },
            )
        }
    }

    /// The section with its attribute string set to `attrs`, copied
    /// verbatim into the rendered output.
    pub fn attrs(self, attrs: &str) -> (r: MemorySection)
        ensures
            r@ == (SectionView { attrs: Some(attrs@), ..self@ }),
    {
        MemorySection {
            name: self.name,
            attrs: Some(String::from_str(attrs)),
            origin: self.origin,
            length: self.length,
            pagesize: self.pagesize,
        }
    }

    /// The section with its page size set to `pagesize`;
    /// `InvalidPageSize` for zero, which slot division cannot use.
    pub fn pagesize(self, pagesize: u64) -> (r: Result<MemorySection, MemoryError>)
        ensures
            pagesize > 0 ==> (r matches Ok(sec) && sec@ == (SectionView {
                pagesize: pagesize,
                ..self@
            })),
            pagesize == 0 ==> r == Err::<MemorySection, MemoryError>(MemoryError::InvalidPageSize),
            r matches Ok(sec) ==> spec_pagesize_result(self@, pagesize) == Ok::<
                SectionView,
                MemoryError,
            >(sec@),
            r matches Err(e) ==> spec_pagesize_result(self@, pagesize) == Err::<
                SectionView,
                MemoryError,
            >(e),
    {
        if pagesize == 0 {
            Err(MemoryError::InvalidPageSize)
        } else {
            Ok(
                MemorySection {
                    name: self.name,
                    attrs: self.attrs,
                    origin: self.origin,
                    length: self.length,
                    pagesize,
                },
            )
        }
    }

    /// Slot `index` of `total`: the page-aligned usable range of the
    /// section is divided into `total` equal slots whose length is a
    /// multiple of the page size, and the `index`-th (zero-based) is
    /// returned.  A slot may legitimately be empty when the range is
    /// smaller than `total` pages.
    pub fn slot(self, index: usize, total: usize) -> (r: Result<MemorySection, MemoryError>)
        requires
            self@.origin + self@.length <= u64::MAX,
        ensures
            r matches Ok(sec) ==> spec_slot_result(self@, index as int, total as int) == Ok::<
                SectionView,
                MemoryError,
            >(sec@),
            r matches Err(e) ==> spec_slot_result(self@, index as int, total as int) == Err::<
                SectionView,
                MemoryError,
            >(e),
            r matches Ok(sec) ==> sec@.origin + sec@.length <= self@.origin + self@.length,
    {
        if index >= total {
            return Err(MemoryError::InvalidSlotIndex);
        }
        if self.pagesize == 0 {
            return Err(MemoryError::InvalidPageSize);
        }
        let end: u64 = self.origin + self.length;
        proof {
            vstd::arithmetic::div_mod::lemma_mod_decreases(end as nat, self@.pagesize as nat);
        }
        let aligned_end: u64 = end - end % self.pagesize;
        let rem: u64 = self.origin % self.pagesize;
        let aligned_origin: u64 = if rem == 0 {
            self.origin
        } else {
            match self.origin.checked_add(self.pagesize - rem) {
                Some(v) => v,
                None => {
                    proof {
                        assert(spec_align_up(self@.origin as int, self@.pagesize as int)
                            > aligned_end);
                    }
                    return Err(MemoryError::RegionTooSmall);
                },
            }
        };
        if aligned_origin > aligned_end {
            return Err(MemoryError::RegionTooSmall);
        }
        let usable: u64 = aligned_end - aligned_origin;
        let total64: u64 = total as u64;
        let index64: u64 = index as u64;
        let share: u64 = usable / total64;
        proof {
            vstd::arithmetic::div_mod::lemma_mod_decreases(share as nat, self@.pagesize as nat);
        }
        let slot_length: u64 = share - share % self.pagesize;
        proof {
            lemma_slot_piece_bounds(
                usable as int,
                total64 as int,
                self@.pagesize as int,
                index64 as int,
            );
            assert((index64 + 1) * (slot_length as int) == index64 * (slot_length as int)
                + slot_length) by (nonlinear_arith);
            assert(index64 * (slot_length as int) + slot_length <= usable);
        }
        let slot_origin: u64 = aligned_origin + index64 * slot_length;
        Ok(
            MemorySection {
                name: self.name,
                attrs: self.attrs,
                origin: slot_origin,
                length: slot_length,
                pagesize: self.pagesize,
            },
        )
    }
}

/// The configuration an external driver gathers (for example from
/// environment variables) before transforming a single section.  An
/// absent field leaves the section untouched; `num_slots` and
/// `slot_offset` matter only when `slot` is present.
pub struct EnvConfig {
    /// Shift and shorten the whole section by this much.
    pub offset: Option<u64>,
    /// Align slot boundaries at this granularity.
    pub pagesize: Option<u64>,
    /// Divide into `num_slots` slots and keep this one (zero-based).
    pub slot: Option<usize>,
    /// How many slots to divide into.
    pub num_slots: usize,
    /// Shift and shorten the kept slot by this much.
    pub slot_offset: u64,
}

/// What [`MemorySection::from_env`] returns: the transformations of
/// `c` applied in order — offset, pagesize, slot, slot offset — with
/// the first failure reported.
pub open spec fn spec_apply_env(s: SectionView, c: EnvConfig) -> Result<
    SectionView,
    MemoryError,
> {
    let r1 = match c.offset {
        Some(d) => spec_offset_result(s, d),
        None => Ok(s),
    };
    match r1 {
        Err(e) => Err(e),
        Ok(s1) => {
            let r2 = match c.pagesize {
                Some(p) => spec_pagesize_result(s1, p),
                None => Ok(s1),
            };
            match r2 {
                Err(e) => Err(e),
                Ok(s2) => match c.slot {
                    None => Ok(s2),
                    Some(sl) => match spec_slot_result(s2, sl as int, c.num_slots as int) {
                        Err(e) => Err(e),
                        Ok(s3) => if c.slot_offset > 0 {
                            spec_offset_result(s3, c.slot_offset)
                        } else {
                            Ok(s3)
                        },
                    },
                },
            }
        },
    }
}

impl MemorySection {
    /// Applies an externally gathered configuration to this section,
    /// in order: offset, pagesize, slot division, slot offset.
    pub fn from_env(self, config: &EnvConfig) -> (r: Result<MemorySection, MemoryError>)
        requires
            self@.origin + self@.length <= u64::MAX,
        ensures
            r matches Ok(sec) ==> spec_apply_env(self@, *config) == Ok::<
                SectionView,
                MemoryError,
            >(sec@),
            r matches Err(e) ==> spec_apply_env(self@, *config) == Err::<
                SectionView,
                MemoryError,
            >(e),
    {
        let mut res = self;
        if let Some(d) = config.offset {
            match res.offset(d) {
                Ok(s) => {
                    res = s;
                },
                Err(e) => {
                    return Err(e);
                },
            }
        }
        if let Some(p) = config.pagesize {
            match res.pagesize(p) {
                Ok(s) => {
                    res = s;
                },
                Err(e) => {
                    return Err(e);
                },
            }
        }
        if let Some(sl) = config.slot {
            match res.slot(sl, config.num_slots) {
                Ok(s) => {
                    res = s;
                },
                Err(e) => {
                    return Err(e);
                },
            }
            if config.slot_offset > 0 {
                match res.offset(config.slot_offset) {
                    Ok(s) => {
                        res = s;
                    },
                    Err(e) => {
                        return Err(e);
                    },
                }
            }
        }
        Ok(res)
    }

    /// The base address of the section.
    pub fn origin(&self) -> (r: u64)
        ensures
            r == self@.origin,
    {
        self.origin
    }

    /// The byte count of the section.
    pub fn length(&self) -> (r: u64)
        ensures
            r == self@.length,
    {
        self.length
    }

    /// The linker-script line for this section:
    /// `    name (attrs): ORIGIN = 0x…, LENGTH = 0x…`.
    pub fn to_string(&self) -> (r: String)
        ensures
            r@ == spec_section_text(self@),
    {
        let mut out = String::from_str("    ");
        out.append(self.name.as_str());
        out.append(" ");
        match &self.attrs {
            Some(a) => {
                out.append("(");
                out.append(a.as_str());
                out.append(")");
            },
            None => {},
        }
        out.append(": ORIGIN = ");
        let h = hex_text(self.origin);
        out.append(h.as_str());
        out.append(", LENGTH = ");
        let l = hex_text(self.length);
        out.append(l.as_str());
        out.append("\n");
        proof {
            assert(out@ =~= spec_section_text(self@));
        }
        out
    }
}

/// Rounding down to a multiple of `a` lands on a multiple of `a` and
/// never rounds up.
proof fn lemma_align_down_props(v: int, a: int)
    requires
        0 < a,
    ensures
        spec_align_down(v, a) % a == 0,
        spec_align_down(v, a) <= v,
{
    vstd::arithmetic::div_mod::lemma_fundamental_div_mod(v, a);
    vstd::arithmetic::div_mod::lemma_mod_bound(v, a);
    let q = v / a;
    assert(spec_align_down(v, a) == q * a) by {
        vstd::arithmetic::mul::lemma_mul_is_commutative(a, q);
    }
    assert((q * a) % a == 0) by {
        vstd::arithmetic::div_mod::lemma_mod_multiples_basic(q, a);
    }
}

/// Rounding up to a multiple of `a` lands on a multiple of `a` and
/// never rounds down.
proof fn lemma_align_up_props(v: int, a: int)
    requires
        0 < a,
    ensures
        spec_align_up(v, a) % a == 0,
        v <= spec_align_up(v, a),
{
    vstd::arithmetic::div_mod::lemma_fundamental_div_mod(v, a);
    vstd::arithmetic::div_mod::lemma_mod_bound(v, a);
    if v % a != 0 {
        let q = v / a;
        assert(spec_align_up(v, a) == (q + 1) * a) by (nonlinear_arith)
            requires
                v == a * q + v % a,
                spec_align_up(v, a) == v + (a - v % a),
        ;
        assert(((q + 1) * a) % a == 0) by {
            vstd::arithmetic::div_mod::lemma_mod_multiples_basic(q + 1, a);
        }
    }
}

/// A multiple of a multiple of `a` is a multiple of `a`.
proof fn lemma_mul_keeps_mod_zero(i: int, x: int, a: int)
    requires
        0 < a,
        x % a == 0,
    ensures
        (i * x) % a == 0,
{
    vstd::arithmetic::div_mod::lemma_fundamental_div_mod(x, a);
    let k = x / a;
    assert(i * x == a * (i * k)) by (nonlinear_arith)
        requires
            x == a * k,
    ;
    vstd::arithmetic::div_mod::lemma_mod_multiples_basic(i * k, a);
}

/// The slots of a section form a partition of a prefix of its usable
/// range: every slot origin and every slot end is page aligned, slot
/// `i + 1` begins exactly where slot `i` ends (so slots are contiguous
/// and non-overlapping), and the `total` slots together never exceed
/// the usable range.  They cover it exactly only when the page size
/// evenly divides the equal share of the range.
pub proof fn lemma_slots_form_partition(s: SectionView, total: int)
    requires
        s.pagesize > 0,
        total > 0,
        spec_align_up(s.origin as int, s.pagesize as int) <= spec_align_down(
            s.origin + s.length,
            s.pagesize as int,
        ),
    ensures
        spec_slot_length(s, total) % (s.pagesize as int) == 0,
        forall|i: int|
            0 <= i <= total ==> #[trigger] spec_slot_origin(s, i, total) % (s.pagesize as int)
                == 0,
        forall|i: int|
            0 <= i < total ==> (#[trigger] spec_slot_origin(s, i, total)) + spec_slot_length(
                s,
                total,
            ) == spec_slot_origin(s, i + 1, total),
        total * spec_slot_length(s, total) <= spec_usable(s),
        total * spec_slot_length(s, total) == spec_usable(s) ==> (spec_usable(s) / total) % (
        s.pagesize as int) == 0,
{
    let p = s.pagesize as int;
    let au = spec_align_up(s.origin as int, p);
    let u = spec_usable(s);
    let share = u / total;
    let sl = spec_slot_length(s, total);
    lemma_align_up_props(s.origin as int, p);
    lemma_align_down_props(s.origin + s.length, p);
    lemma_align_down_props(share, p);
    vstd::arithmetic::div_mod::lemma_fundamental_div_mod(u, total);
    vstd::arithmetic::div_mod::lemma_mod_bound(u, total);
    vstd::arithmetic::div_mod::lemma_mod_bound(share, p);
    assert(0 <= share);
    vstd::arithmetic::div_mod::lemma_mod_decreases(share as nat, p as nat);
    assert(0 <= sl <= share);
    assert forall|i: int| 0 <= i <= total implies #[trigger] spec_slot_origin(s, i, total) % p
        == 0 by {
        lemma_mul_keeps_mod_zero(i, sl, p);
        vstd::arithmetic::div_mod::lemma_mod_adds(au, i * sl, p);
    }
    assert forall|i: int| 0 <= i < total implies (#[trigger] spec_slot_origin(s, i, total)) + sl
        == spec_slot_origin(s, i + 1, total) by {
        assert((i + 1) * sl == i * sl + sl) by (nonlinear_arith);
    }
    assert(total * sl <= total * share) by (nonlinear_arith)
        requires
            0 < total,
            sl <= share,
    ;
    assert(total * share <= u);
    if total * sl == u {
        if share % p != 0 {
            assert(sl < share);
            assert(total * sl < total * share) by (nonlinear_arith)
                requires
                    0 < total,
                    sl < share,
            ;
            assert(false);
        }
    }
}

/// For a usable range of `usable` bytes divided into `total` slots of
/// page size `p`, the slice claimed up to and including slot `index`
/// stays within the usable range.
proof fn lemma_slot_piece_bounds(usable: int, total: int, p: int, index: int)
    requires
        0 <= usable,
        0 < p,
        0 <= index < total,
    ensures
        (index + 1) * spec_align_down(usable / total, p) <= usable,
        0 <= spec_align_down(usable / total, p) <= usable / total,
{
    let share = usable / total;
    let sl = spec_align_down(share, p);
    vstd::arithmetic::div_mod::lemma_fundamental_div_mod(usable, total);
    vstd::arithmetic::div_mod::lemma_mod_bound(usable, total);
    vstd::arithmetic::div_mod::lemma_mod_bound(share, p);
    vstd::arithmetic::div_mod::lemma_mod_decreases(share as nat, p as nat);
    assert(0 <= share % p < p);
    assert(0 <= sl <= share);
    assert(total * share <= usable);
    assert((index + 1) * sl <= total * share) by (nonlinear_arith)
        requires
            0 <= index + 1 <= total,
            0 <= sl <= share,
    ;
}

} // verus!
