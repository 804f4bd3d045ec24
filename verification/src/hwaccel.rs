//! GPU decode and encode selection, one list per platform.
//!
//! Decoders are picked by rank, so using the GPU is a matter of raising the
//! ranks of the hardware decoders above the software ones. The encoder is the
//! first hardware one that is actually present; without one, the caller uses
//! x264.

#[allow(unused_imports)]
use crate::text::{ends_with, has_prefix, maybe};
use crate::text::same_text;
use vstd::prelude::*;

verus! {

/// The platforms with hardware codecs of their own.
#[derive(Debug, Clone, Copy, PartialEq, Eq, Structural)]
pub enum Platform {
    MacOs,
    Linux,
    Windows,
    Other,
}

/// VideoToolbox.
pub const MACOS_DECODERS: [&'static str; 2] = ["vtdec_hw", "vtdec"];

/// NVDEC, then VA-API through the modern plugin and through the legacy one,
/// then QuickSync.
pub const LINUX_DECODERS: [&'static str; 13] = [
    "nvh264dec",
    "nvh265dec",
    "nvvp9dec",
    "nvav1dec",
    "vah264dec",
    "vah265dec",
    "vavp9dec",
    "vaav1dec",
    "vaapih264dec",
    "vaapih265dec",
    "qsvh264dec",
    "qsvh265dec",
    "qsvav1dec",
];

/// Direct3D, which covers every vendor, then the vendors' own decoders.
pub const WINDOWS_DECODERS: [&'static str; 12] = [
    "d3d12h264dec",
    "d3d12h265dec",
    "d3d12vp9dec",
    "d3d12av1dec",
    "d3d11h264dec",
    "d3d11h265dec",
    "d3d11vp9dec",
    "d3d11av1dec",
    "nvh264dec",
    "nvh265dec",
    "qsvh264dec",
    "qsvh265dec",
];

pub const MACOS_ENCODERS: [&'static str; 1] = ["vtenc_h264"];

pub const LINUX_ENCODERS: [&'static str; 4] = [
    "nvh264enc",
    "vah264enc",
    "qsvh264enc",
    "vaapih264enc",
];

pub const WINDOWS_ENCODERS: [&'static str; 4] = [
    "nvh264enc",
    "qsvh264enc",
    "amfh264enc",
    "mfh264enc",
];

/// The hardware decoders of a platform, best first.
pub open spec fn decoders_of(platform: Platform) -> Seq<&'static str> {
    match platform {
        Platform::MacOs => MACOS_DECODERS@,
        Platform::Linux => LINUX_DECODERS@,
        Platform::Windows => WINDOWS_DECODERS@,
        Platform::Other => seq![],
    }
}

/// The hardware H.264 encoders of a platform, best first.
pub open spec fn encoders_of(platform: Platform) -> Seq<&'static str> {
    match platform {
        Platform::MacOs => MACOS_ENCODERS@,
        Platform::Linux => LINUX_ENCODERS@,
        Platform::Windows => WINDOWS_ENCODERS@,
        Platform::Other => seq![],
    }
}

fn listed(names: &[&'static str]) -> (r: Vec<&'static str>)
    ensures
        r@ == names@,
{
    let mut out: Vec<&'static str> = Vec::new();
    let mut i: usize = 0;
    while i < names.len()
        invariant
            i <= names@.len(),
            out@ == names@.take(i as int),
        decreases names@.len() - i,
    {
        out.push(names[i]);
        i += 1;
        assert(names@.take(i as int) =~= names@.take(i - 1).push(names@[i - 1]));
    }
    assert(names@.take(i as int) =~= names@);
    out
}

/// The hardware decoders of a platform, best first.
pub fn hw_decoders(platform: Platform) -> (r: Vec<&'static str>)
    ensures
        r@ == decoders_of(platform),
{
    match platform {
        Platform::MacOs => listed(MACOS_DECODERS.as_slice()),
        Platform::Linux => listed(LINUX_DECODERS.as_slice()),
        Platform::Windows => listed(WINDOWS_DECODERS.as_slice()),
        Platform::Other => Vec::new(),
    }
}

/// The hardware H.264 encoders of a platform, best first.
pub fn hw_encoders(platform: Platform) -> (r: Vec<&'static str>)
    ensures
        r@ == encoders_of(platform),
{
    match platform {
        Platform::MacOs => listed(MACOS_ENCODERS.as_slice()),
        Platform::Linux => listed(LINUX_ENCODERS.as_slice()),
        Platform::Windows => listed(WINDOWS_ENCODERS.as_slice()),
        Platform::Other => Vec::new(),
    }
}

/// Whether a setting of the environment leaves the GPU on. Only an explicit
/// refusal turns it off.
pub open spec fn leaves_hardware_on(value: Option<Seq<char>>) -> bool {
    match value {
        Some(v) => v != "off"@ && v != "0"@ && v != "false"@ && v != "no"@,
        None => true,
    }
}

pub fn enabled_from(value: Option<&str>) -> (r: bool)
    ensures
        r == leaves_hardware_on(maybe(value)),
{
    match value {
        Some(v) => !(same_text(v, "off") || same_text(v, "0") || same_text(v, "false")
            || same_text(v, "no")),
        None => true,
    }
}

/// What the command line says about the GPU. It is said at most once, before
/// anything asks.
#[derive(Debug, Clone, Copy, PartialEq, Eq, Structural)]
pub struct HwMode {
    pub cli_override: Option<bool>,
}

/// What is on record of the command line after it made a choice.
pub open spec fn after_choice(cli: Option<bool>, enabled: bool) -> Option<bool> {
    match cli {
        Some(first) => Some(first),
        None => Some(enabled),
    }
}

/// Whether the GPU is to be used.
pub open spec fn uses_hardware(cli: Option<bool>, env: Option<Seq<char>>) -> bool {
    match cli {
        Some(on) => on,
        None => leaves_hardware_on(env),
    }
}

impl HwMode {
    pub fn new() -> (r: HwMode)
        ensures
            r.cli_override is None,
    {
        HwMode { cli_override: None }
    }

    /// Records the command line's choice. Later calls are ignored.
    pub fn set_enabled(&mut self, enabled: bool)
        ensures
            final(self).cli_override == after_choice(old(self).cli_override, enabled),
    {
        if self.cli_override.is_none() {
            self.cli_override = Some(enabled);
        }
    }

    /// Whether the GPU is to be used: the command line decides, or else the
    /// environment.
    pub fn enabled(&self, env: Option<&str>) -> (r: bool)
        ensures
            r == uses_hardware(self.cli_override, maybe(env)),
    {
        match self.cli_override {
            Some(on) => on,
            None => enabled_from(env),
        }
    }
}

/// How far above the primary rank the best hardware decoder is put.
pub const RANK_HEADROOM: i32 = 64;

/// The rank a decoder is given for its place in the list.
pub open spec fn target_rank(primary: i32, position: int) -> int {
    primary + RANK_HEADROOM - position
}

/// The rank a decoder ends up with: ranks are only ever raised.
pub open spec fn raised_rank(primary: i32, position: int, rank: i32) -> int {
    if rank < target_rank(primary, position) {
        target_rank(primary, position)
    } else {
        rank as int
    }
}

/// What to do about the decoder at one place in the list.
#[derive(Debug, Clone, Copy, PartialEq, Eq, Structural)]
pub enum Promotion {
    /// The decoder is not there.
    Absent,
    /// It already ranks high enough.
    Keep,
    Raise(i32),
}

/// What to do about a decoder of the given rank, if it is there.
pub open spec fn promotion(primary: i32, position: int, rank: Option<i32>) -> Promotion {
    match rank {
        None => Promotion::Absent,
        Some(k) => if k < target_rank(primary, position) {
            Promotion::Raise(target_rank(primary, position) as i32)
        } else {
            Promotion::Keep
        },
    }
}

/// Whether `plan` promotes the hardware decoders of the given ranks.
pub open spec fn is_plan(
    enabled: bool,
    primary: i32,
    ranks: Seq<Option<i32>>,
    plan: Seq<Promotion>,
) -> bool {
    &&& plan.len() == if enabled {
        ranks.len()
    } else {
        0
    }
    &&& forall|i: int|
        0 <= i < plan.len() ==> #[trigger] plan[i] == promotion(primary, i, ranks[i])
}

/// Plans the promotion of the hardware decoders, given the rank of each one
/// that is there. With the GPU off there is nothing to plan.
pub fn promote_hardware_decoders(enabled: bool, primary: i32, ranks: &Vec<Option<i32>>) -> (r: Vec<
    Promotion,
>)
    requires
        primary + RANK_HEADROOM <= i32::MAX,
        ranks@.len() <= i32::MAX,
        primary + RANK_HEADROOM - ranks@.len() >= i32::MIN,
    ensures
        is_plan(enabled, primary, ranks@, r@),
{
    let mut plan: Vec<Promotion> = Vec::new();
    if !enabled {
        return plan;
    }
    let base: i32 = primary + RANK_HEADROOM;
    let mut i: usize = 0;
    while i < ranks.len()
        invariant
            i <= ranks@.len() <= i32::MAX,
            primary + RANK_HEADROOM - ranks@.len() >= i32::MIN,
            base == primary + RANK_HEADROOM,
            plan@.len() == i,
            forall|k: int| 0 <= k < i ==> plan@[k] == promotion(primary, k, ranks@[k]),
        decreases ranks@.len() - i,
    {
        let target: i32 = base - i as i32;
        let step = match ranks[i] {
            None => Promotion::Absent,
            Some(rank) => if rank < target {
                Promotion::Raise(target)
            } else {
                Promotion::Keep
            },
        };
        plan.push(step);
        i += 1;
    }
    plan
}

/// The names of the decoders that are there, in order.
pub open spec fn present(names: Seq<&'static str>, plan: Seq<Promotion>) -> Seq<&'static str>
    decreases plan.len(),
{
    if plan.len() == 0 || names.len() == 0 {
        seq![]
    } else {
        let rest = present(names.skip(1), plan.skip(1));
        if plan[0] == Promotion::Absent {
            rest
        } else {
            seq![names[0]] + rest
        }
    }
}

/// The names of the decoders that autoplugging now prefers.
pub fn promoted_names(names: &Vec<&'static str>, plan: &Vec<Promotion>) -> (r: Vec<&'static str>)
    ensures
        r@ == present(names@, plan@),
{
    let mut out: Vec<&'static str> = Vec::new();
    let mut i: usize = 0;
    assert(names@.skip(0) =~= names@);
    assert(plan@.skip(0) =~= plan@);
    while i < names.len() && i < plan.len()
        invariant
            i <= names@.len(),
            i <= plan@.len(),
            present(names@, plan@) == out@ + present(names@.skip(i as int), plan@.skip(i as int)),
        decreases names@.len() - i,
    {
        let ghost before = out@;
        assert(names@.skip(i as int).skip(1) =~= names@.skip(i + 1));
        assert(plan@.skip(i as int).skip(1) =~= plan@.skip(i + 1));
        if plan[i] != Promotion::Absent {
            out.push(names[i]);
            assert(before + (seq![names@[i as int]] + present(names@.skip(i + 1), plan@.skip(i + 1)))
                =~= out@ + present(names@.skip(i + 1), plan@.skip(i + 1)));
        }
        i += 1;
    }
    assert(present(names@.skip(i as int), plan@.skip(i as int)) =~= seq![]);
    assert(out@ + seq![] =~= out@);
    out
}

/// No decoder loses rank, and among those that were raised the earlier one
/// ranks higher.
pub proof fn law_ranks_only_rise_in_order(primary: i32, i: int, j: int, rank_i: i32, rank_j: i32)
    requires
        i < j,
    ensures
        raised_rank(primary, i, rank_i) >= rank_i,
        rank_j < target_rank(primary, j) ==> raised_rank(primary, i, rank_i) > raised_rank(
            primary,
            j,
            rank_j,
        ),
{
}

/// A plan says what the ranks end up as.
pub proof fn law_plan_reaches_the_rank(primary: i32, position: int, rank: i32)
    requires
        i32::MIN <= target_rank(primary, position) <= i32::MAX,
    ensures
        match promotion(primary, position, Some(rank)) {
            Promotion::Raise(k) => k == raised_rank(primary, position, rank),
            Promotion::Keep => rank == raised_rank(primary, position, rank),
            Promotion::Absent => false,
        },
{
}

/// The first name in a list whose bearer is there.
pub open spec fn first_there(names: Seq<&'static str>, there: Seq<bool>) -> Option<Seq<char>>
    decreases names.len(),
{
    if names.len() == 0 || there.len() == 0 {
        None
    } else if there[0] {
        Some(names[0]@)
    } else {
        first_there(names.skip(1), there.skip(1))
    }
}

/// The encoder to use, if the GPU is to be used and has one.
pub open spec fn preferred_encoder(enabled: bool, platform: Platform, there: Seq<bool>) -> Option<
    Seq<char>,
> {
    if enabled {
        first_there(encoders_of(platform), there)
    } else {
        None
    }
}

/// The best hardware encoder of a platform, given which of its list are
/// there; nothing with the GPU off or none there.
pub fn preferred_h264_encoder(enabled: bool, platform: Platform, there: &Vec<bool>) -> (r: Option<
    &'static str,
>)
    ensures
        maybe(r) == preferred_encoder(enabled, platform, there@),
{
    if !enabled {
        return None;
    }
    let names = hw_encoders(platform);
    let mut i: usize = 0;
    assert(names@.skip(0) =~= names@);
    assert(there@.skip(0) =~= there@);
    while i < names.len() && i < there.len()
        invariant
            i <= names@.len(),
            i <= there@.len(),
            enabled,
            names@ == encoders_of(platform),
            first_there(names@, there@) == first_there(names@.skip(i as int), there@.skip(i as int)),
        decreases names@.len() - i,
    {
        if there[i] {
            return Some(names[i]);
        }
        assert(names@.skip(i as int).skip(1) =~= names@.skip(i + 1));
        assert(there@.skip(i as int).skip(1) =~= there@.skip(i + 1));
        i += 1;
    }
    None
}

/// The first choice of the command line stands, and decides whatever the
/// environment says. With none, the environment turns the GPU off by saying so
/// and in no other way, and without a word the GPU is used.
pub proof fn law_who_decides_about_the_gpu(
    first: bool,
    second: bool,
    env: Option<Seq<char>>,
    word: Seq<char>,
)
    ensures
        after_choice(after_choice(None, first), second) == Some(first),
        uses_hardware(after_choice(None, first), env) == first,
        uses_hardware(None, None),
        !uses_hardware(None, Some(word)) <==> word == "off"@ || word == "0"@ || word == "false"@
            || word == "no"@,
{
}

/// A hardware decoder that is there ends up above every software decoder of
/// primary rank, the better the further ahead it is in the list; one that
/// ranks higher already keeps its rank, and one that is not there is left
/// alone.
pub proof fn law_hardware_decoders_come_first(primary: i32, i: int, j: int, rank: i32)
    requires
        0 <= i < j < 64,
        i32::MIN <= target_rank(primary, j),
        target_rank(primary, i) <= i32::MAX,
    ensures
        promotion(primary, i, None) == Promotion::Absent,
        promotion(primary, i, Some(rank)) != Promotion::Absent,
        promotion(primary, i, Some(rank)) matches Promotion::Raise(k) ==> k > primary && k > rank,
        promotion(primary, i, Some(rank)) == Promotion::Keep ==> rank > primary,
        promotion(primary, i, Some(primary)) is Raise,
        promotion(primary, i, Some(primary))->Raise_0 > promotion(
            primary,
            j,
            Some(primary),
        )->Raise_0,
        promotion(primary, i, Some(rank)) is Raise <==> rank < promotion(
            primary,
            i,
            Some(primary),
        )->Raise_0,
        promotion(primary, i, Some(rank)) is Raise ==> promotion(primary, i, Some(rank))
            == promotion(primary, i, Some(primary)),
{
}

/// The preferred encoder is there, and none that is listed before it is; there
/// is none exactly if nothing on the list is there.
pub proof fn law_preferred_encoder_is_the_first_there(
    names: Seq<&'static str>,
    there: Seq<bool>,
)
    requires
        names.len() == there.len(),
    ensures
        first_there(names, there) is None <==> forall|i: int|
            0 <= i < there.len() ==> !#[trigger] there[i],
        first_there(names, there) matches Some(name) ==> exists|i: int|
            {
                &&& 0 <= i < names.len()
                &&& #[trigger] there[i]
                &&& names[i]@ == name
                &&& forall|j: int| 0 <= j < i ==> !#[trigger] there[j]
            },
    decreases names.len(),
{
    if names.len() > 0 {
        if there[0] {
            assert(there[0] && names[0]@ == first_there(names, there)->0);
        } else {
            let (n, t) = (names.skip(1), there.skip(1));
            law_preferred_encoder_is_the_first_there(n, t);
            if first_there(n, t) is Some {
                let i = choose|i: int|
                    {
                        &&& 0 <= i < n.len()
                        &&& #[trigger] t[i]
                        &&& n[i]@ == first_there(n, t)->0
                        &&& forall|j: int| 0 <= j < i ==> !#[trigger] t[j]
                    };
                assert(there[i + 1] == t[i] && names[i + 1] == n[i]);
                assert forall|j: int| 0 <= j < i + 1 implies !#[trigger] there[j] by {
                    if j > 0 {
                        assert(there[j] == t[j - 1]);
                    }
                }
            } else {
                assert forall|i: int| 0 <= i < there.len() implies !#[trigger] there[i] by {
                    if i > 0 {
                        assert(there[i] == t[i - 1]);
                    }
                }
            }
        }
    }
}

/// What is reported as promoted are the decoders that are there, all of them,
/// in their order.
pub proof fn law_promoted_are_those_there(names: Seq<&'static str>, plan: Seq<Promotion>, i: int)
    requires
        names.len() == plan.len(),
        0 <= i < names.len(),
    ensures
        plan[i] != Promotion::Absent ==> present(names, plan).contains(names[i]),
        present(names, plan).len() <= names.len(),
        (forall|k: int| 0 <= k < plan.len() ==> #[trigger] plan[k] != Promotion::Absent)
            ==> present(names, plan) == names,
        (forall|k: int| 0 <= k < plan.len() ==> #[trigger] plan[k] == Promotion::Absent)
            ==> present(names, plan).len() == 0,
    decreases names.len(),
{
    let (n, p) = (names.skip(1), plan.skip(1));
    let rest = present(n, p);
    assert forall|k: int| 0 <= k < p.len() implies #[trigger] p[k] == plan[k + 1] by {}
    if names.len() > 1 {
        law_promoted_are_those_there(
            n,
            p,
            if i > 0 {
                i - 1
            } else {
                0
            },
        );
    } else {
        assert(rest =~= Seq::<&'static str>::empty());
        assert(names =~= seq![names[0]]);
    }
    let all = present(names, plan);
    if plan[0] != Promotion::Absent {
        assert(all == seq![names[0]] + rest);
        assert(all[0] == names[0]);
        if i > 0 && plan[i] != Promotion::Absent {
            let at = choose|at: int| 0 <= at < rest.len() && rest[at] == n[i - 1];
            assert(all[at + 1] == names[i]);
        }
        assert(seq![names[0]] + n =~= names);
    }
    assert forall|k: int| 0 <= k < p.len() && plan[k + 1] != Promotion::Absent implies #[trigger] p[k]
        != Promotion::Absent by {}
}

/// With the GPU off nothing is promoted and no encoder of its is used. With it
/// on there is one decision for each decoder, by its own rank alone; and an
/// encoder is used exactly if one is there, one of this platform.
pub proof fn law_nothing_is_done_with_the_gpu_off(
    enabled: bool,
    primary: i32,
    ranks: Seq<Option<i32>>,
    plan: Seq<Promotion>,
    platform: Platform,
    there: Seq<bool>,
)
    requires
        is_plan(enabled, primary, ranks, plan),
        there.len() == encoders_of(platform).len(),
    ensures
        !enabled ==> plan.len() == 0 && preferred_encoder(enabled, platform, there) is None,
        enabled ==> plan.len() == ranks.len(),
        forall|i: int|
            0 <= i < plan.len() ==> (#[trigger] plan[i] == Promotion::Absent <==> ranks[i] is None),
        enabled ==> (preferred_encoder(enabled, platform, there) is Some <==> exists|i: int|
            0 <= i < there.len() && #[trigger] there[i]),
        preferred_encoder(enabled, platform, there) matches Some(name) ==> exists|i: int|
            0 <= i < there.len() && (#[trigger] encoders_of(platform)[i])@ == name && there[i],
        platform == Platform::Other ==> there.len() == 0,
{
    law_preferred_encoder_is_the_first_there(encoders_of(platform), there);
    if first_there(encoders_of(platform), there) is Some {
        let names = encoders_of(platform);
        let i = choose|i: int|
            {
                &&& 0 <= i < names.len()
                &&& #[trigger] there[i]
                &&& names[i]@ == first_there(names, there)->0
                &&& forall|j: int| 0 <= j < i ==> !#[trigger] there[j]
            };
        assert(encoders_of(platform)[i]@ == first_there(names, there)->0 && there[i]);
    }
}

/// The encoders listed are those of H.264, and the maker's own come before the
/// ones that reach the GPU through a layer of the system: on Linux NVIDIA's
/// first and the legacy VA-API plugin last, on Windows NVIDIA's first and Media
/// Foundation last.
pub proof fn law_encoders_are_of_h264(platform: Platform, i: int)
    requires
        0 <= i < encoders_of(platform).len(),
    ensures
        ({
            let names = encoders_of(platform);
            let name = names[i]@;
            &&& ends_with(name, "h264enc"@) || ends_with(name, "enc_h264"@)
            &&& platform == Platform::Linux || platform == Platform::Windows ==> (has_prefix(
                name,
                "nv"@,
            ) <==> i == 0)
            &&& platform == Platform::Linux ==> (has_prefix(name, "vaapi"@) <==> i == names.len()
                - 1)
            &&& platform == Platform::Windows ==> (has_prefix(name, "mf"@) <==> i == names.len()
                - 1)
        }),
{
    reveal_strlit("h264enc");
    reveal_strlit("enc_h264");
    reveal_strlit("nv");
    reveal_strlit("vaapi");
    reveal_strlit("mf");
    reveal_strlit("vtenc_h264");
    reveal_strlit("nvh264enc");
    reveal_strlit("vah264enc");
    reveal_strlit("qsvh264enc");
    reveal_strlit("vaapih264enc");
    reveal_strlit("amfh264enc");
    reveal_strlit("mfh264enc");
    let name = encoders_of(platform)[i]@;
    if platform == Platform::MacOs {
        assert(name.subrange(2, 10) =~= "enc_h264"@);
    } else {
        assert(name.subrange(name.len() - 7, name.len() as int) =~= "h264enc"@);
        lemma_begins(name, "nv"@);
        lemma_begins(name, "vaapi"@);
        lemma_begins(name, "mf"@);
    }
}

/// The decoders listed come family by family: on Linux NVIDIA's, then VA-API
/// through the modern plugin, then through the legacy one, then QuickSync; on
/// Windows Direct3D, the newer first, then NVIDIA's, then QuickSync.
pub proof fn law_decoders_come_family_by_family(i: int, j: int)
    requires
        0 <= i <= j,
    ensures
        j < decoders_of(Platform::Linux).len() ==> ({
            let (one, other) = (
                decoders_of(Platform::Linux)[i]@,
                decoders_of(Platform::Linux)[j]@,
            );
            &&& has_prefix(other, "nv"@) ==> has_prefix(one, "nv"@)
            &&& has_prefix(other, "va"@) ==> has_prefix(one, "nv"@) || has_prefix(one, "va"@)
            &&& has_prefix(one, "vaapi"@) ==> has_prefix(other, "vaapi"@) || has_prefix(
                other,
                "qsv"@,
            )
            &&& has_prefix(one, "qsv"@) ==> has_prefix(other, "qsv"@)
        }),
        j < decoders_of(Platform::Windows).len() ==> ({
            let (one, other) = (
                decoders_of(Platform::Windows)[i]@,
                decoders_of(Platform::Windows)[j]@,
            );
            &&& has_prefix(other, "d3d12"@) ==> has_prefix(one, "d3d12"@)
            &&& has_prefix(other, "d3d"@) ==> has_prefix(one, "d3d"@)
            &&& has_prefix(one, "qsv"@) ==> has_prefix(other, "qsv"@)
        }),
{
    if j < 13 {
        lemma_linux_families(i);
        lemma_linux_families(j);
    }
    if j < 12 {
        lemma_windows_families(i);
        lemma_windows_families(j);
    }
}

proof fn lemma_linux_families(i: int)
    requires
        0 <= i < 13,
    ensures
        ({
            let name = decoders_of(Platform::Linux)[i]@;
            &&& has_prefix(name, "nv"@) <==> i < 4
            &&& has_prefix(name, "va"@) <==> 4 <= i < 10
            &&& has_prefix(name, "vaapi"@) <==> 8 <= i < 10
            &&& has_prefix(name, "qsv"@) <==> 10 <= i
        }),
{
    reveal_strlit("nv");
    reveal_strlit("va");
    reveal_strlit("vaapi");
    reveal_strlit("qsv");
    reveal_strlit("nvh264dec");
    reveal_strlit("nvh265dec");
    reveal_strlit("nvvp9dec");
    reveal_strlit("nvav1dec");
    reveal_strlit("vah264dec");
    reveal_strlit("vah265dec");
    reveal_strlit("vavp9dec");
    reveal_strlit("vaav1dec");
    reveal_strlit("vaapih264dec");
    reveal_strlit("vaapih265dec");
    reveal_strlit("qsvh264dec");
    reveal_strlit("qsvh265dec");
    reveal_strlit("qsvav1dec");
    let name = decoders_of(Platform::Linux)[i]@;
    lemma_begins(name, "nv"@);
    lemma_begins(name, "va"@);
    lemma_begins(name, "vaapi"@);
    lemma_begins(name, "qsv"@);
}

proof fn lemma_windows_families(i: int)
    requires
        0 <= i < 12,
    ensures
        ({
            let name = decoders_of(Platform::Windows)[i]@;
            &&& has_prefix(name, "d3d12"@) <==> i < 4
            &&& has_prefix(name, "d3d"@) <==> i < 8
            &&& has_prefix(name, "qsv"@) <==> 10 <= i
        }),
{
    reveal_strlit("d3d12");
    reveal_strlit("d3d");
    reveal_strlit("qsv");
    reveal_strlit("d3d12h264dec");
    reveal_strlit("d3d12h265dec");
    reveal_strlit("d3d12vp9dec");
    reveal_strlit("d3d12av1dec");
    reveal_strlit("d3d11h264dec");
    reveal_strlit("d3d11h265dec");
    reveal_strlit("d3d11vp9dec");
    reveal_strlit("d3d11av1dec");
    reveal_strlit("nvh264dec");
    reveal_strlit("nvh265dec");
    reveal_strlit("qsvh264dec");
    reveal_strlit("qsvh265dec");
    let name = decoders_of(Platform::Windows)[i]@;
    lemma_begins(name, "d3d12"@);
    lemma_begins(name, "d3d"@);
    lemma_begins(name, "qsv"@);
}

/// A text begins with a short one exactly if it has its characters in front.
proof fn lemma_begins(text: Seq<char>, start: Seq<char>)
    requires
        start.len() <= 5 <= text.len(),
    ensures
        has_prefix(text, start) <==> {
            &&& start.len() > 0 ==> text[0] == start[0]
            &&& start.len() > 1 ==> text[1] == start[1]
            &&& start.len() > 2 ==> text[2] == start[2]
            &&& start.len() > 3 ==> text[3] == start[3]
            &&& start.len() > 4 ==> text[4] == start[4]
        },
{
    let front = text.subrange(0, start.len() as int);
    if front == start {
        assert forall|i: int| 0 <= i < start.len() implies text[i] == #[trigger] start[i] by {
            assert(front[i] == text[i]);
        }
    }
    if {
        &&& start.len() > 0 ==> text[0] == start[0]
        &&& start.len() > 1 ==> text[1] == start[1]
        &&& start.len() > 2 ==> text[2] == start[2]
        &&& start.len() > 3 ==> text[3] == start[3]
        &&& start.len() > 4 ==> text[4] == start[4]
    } {
        assert(front =~= start);
    }
}

} // verus!
