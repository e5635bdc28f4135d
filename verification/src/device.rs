//! The choice of audio devices, stream configurations and sample formats.
use crate::audio::SAMPLE_RATE;
use crate::text::{join, same_text, text_of};
use vstd::prelude::*;

verus! {

/// Why no stream can be opened. `input` tells capture from playback.
#[derive(Debug)]
pub enum DeviceError {
    /// No device has the name.
    NotFound(String),
    /// The system has no default device.
    NoDefault { input: bool },
    /// No configuration has the sample rate.
    RateUnsupported { input: bool },
    /// The configuration has samples of another format.
    FormatUnsupported { input: bool, format: String },
}

/// The word for a direction.
pub open spec fn direction(input: bool) -> Seq<char> {
    if input {
        "input"@
    } else {
        "output"@
    }
}

impl DeviceError {
    /// The text that tells a user of the error.
    pub open spec fn text(self) -> Seq<char> {
        match self {
            DeviceError::NotFound(name) => "device '"@ + name@ + "' not found"@,
            DeviceError::NoDefault { input } => "no default "@ + direction(input) + " device"@,
            DeviceError::RateUnsupported { input } => direction(input)
                + " device does not support 48000Hz"@,
            DeviceError::FormatUnsupported { input, format } => "unsupported "@ + direction(input)
                + " sample format: "@ + format@,
        }
    }

    /// The text that tells a user of the error.
    pub fn message(&self) -> (r: String)
        ensures
            r@ == self.text(),
    {
        match self {
            DeviceError::NotFound(name) => {
                let start = join("device '", name.as_str());
                join(start.as_str(), "' not found")
            },
            DeviceError::NoDefault { input } => {
                let start = join("no default ", direction_word(*input));
                join(start.as_str(), " device")
            },
            DeviceError::RateUnsupported { input } => join(
                direction_word(*input),
                " device does not support 48000Hz",
            ),
            DeviceError::FormatUnsupported { input, format } => {
                let start = join("unsupported ", direction_word(*input));
                let middle = join(start.as_str(), " sample format: ");
                join(middle.as_str(), format.as_str())
            },
        }
    }
}

fn direction_word(input: bool) -> (r: &'static str)
    ensures
        r@ == direction(input),
{
    if input {
        "input"
    } else {
        "output"
    }
}

/// Which device to open.
#[derive(Clone, Copy, Debug, PartialEq, Eq, Structural)]
pub enum DeviceChoice {
    /// The device at this place of the list.
    Listed(usize),
    /// The default device.
    Default,
}

/// Whether the device at `i` has the name.
pub open spec fn has_name(names: Seq<Option<String>>, i: int, name: Seq<char>) -> bool {
    text_of(names[i]) == Some(name)
}

/// Chooses the device to open: the first one of the wanted name, where a name is wanted, else the
/// default device. `names` lists the devices by name, `None` for one that does not tell its name,
/// and `has_default` says whether there is a default device.
pub fn find_device(
    input: bool,
    wanted: Option<&str>,
    names: &Vec<Option<String>>,
    has_default: bool,
) -> (r: Result<DeviceChoice, DeviceError>)
    ensures
        wanted matches Some(name) ==> match r {
            Ok(DeviceChoice::Listed(i)) => i < names@.len() && has_name(names@, i as int, name@)
                && forall|j: int| 0 <= j < i ==> !#[trigger] has_name(names@, j, name@),
            Err(DeviceError::NotFound(n)) => n@ == name@ && forall|j: int|
                0 <= j < names@.len() ==> !#[trigger] has_name(names@, j, name@),
            _ => false,
        },
        wanted is None ==> r == (if has_default {
            Ok::<DeviceChoice, DeviceError>(DeviceChoice::Default)
        } else {
            Err::<DeviceChoice, DeviceError>(DeviceError::NoDefault { input })
        }),
        wanted matches Some(name) ==> (r matches Ok(DeviceChoice::Listed(i)) ==> i < names@.len() && (
        names@[i as int] matches Some(n) && n@ == name@)),
        wanted matches Some(name) ==> (r is Err ==> forall|j: int|
            0 <= j < names@.len() ==> !((#[trigger] names@[j]) matches Some(n) && n@ == name@)),
{
    match wanted {
        Some(name) => {
            let mut i: usize = 0;
            while i < names.len()
                invariant
                    i <= names@.len(),
                    wanted == Some(name),
                    forall|j: int| 0 <= j < i ==> !#[trigger] has_name(names@, j, name@),
                decreases names.len() - i,
            {
                if let Some(n) = &names[i] {
                    if same_text(n.as_str(), name) {
                        assert(has_name(names@, i as int, name@));
                        return Ok(DeviceChoice::Listed(i));
                    }
                }
                i = i + 1;
            }
            assert forall|j: int| 0 <= j < names@.len() implies !((#[trigger] names@[j]) matches Some(
                n,
            ) && n@ == name@) by {
                assert(!has_name(names@, j, name@));
            }
            Err(DeviceError::NotFound(name.to_owned()))
        },
        None => {
            if has_default {
                Ok(DeviceChoice::Default)
            } else {
                Err(DeviceError::NoDefault { input })
            }
        },
    }
}

/// The sample format of a configuration; the ones that cannot be used are told by their name.
#[derive(Debug)]
pub enum SampleFormat {
    F32,
    I16,
    I32,
    U8,
    Other(String),
}

/// The sample formats that can be used.
#[derive(Clone, Copy, Debug, PartialEq, Eq, Structural)]
pub enum SampleKind {
    F32,
    I16,
    I32,
    U8,
}

/// The usable format that a format is, if it is one.
pub open spec fn usable(format: SampleFormat) -> Option<SampleKind> {
    match format {
        SampleFormat::F32 => Some(SampleKind::F32),
        SampleFormat::I16 => Some(SampleKind::I16),
        SampleFormat::I32 => Some(SampleKind::I32),
        SampleFormat::U8 => Some(SampleKind::U8),
        SampleFormat::Other(_) => None,
    }
}

/// The name of a format that cannot be used.
pub open spec fn unusable_name(format: SampleFormat) -> Option<Seq<char>> {
    match format {
        SampleFormat::Other(name) => Some(name@),
        _ => None,
    }
}

/// A range of configurations that a device offers.
#[derive(Debug)]
pub struct ConfigRange {
    pub channels: u16,
    pub min_sample_rate: u32,
    pub max_sample_rate: u32,
    pub format: SampleFormat,
}

impl ConfigRange {
    /// Whether the range holds `SAMPLE_RATE`.
    pub open spec fn has_rate(self) -> bool {
        self.min_sample_rate <= SAMPLE_RATE <= self.max_sample_rate
    }
}

/// Whether `i` is the configuration to use: it has the sample rate, and is the first of those with
/// the fewest channels.
pub open spec fn is_best(ranges: Seq<ConfigRange>, i: int) -> bool {
    &&& 0 <= i < ranges.len()
    &&& ranges[i].has_rate()
    &&& forall|j: int|
        0 <= j < ranges.len() && (#[trigger] ranges[j]).has_rate() ==> ranges[i].channels
            < ranges[j].channels || (ranges[i].channels == ranges[j].channels && i <= j)
}

/// Whether some configuration has the sample rate.
pub open spec fn some_has_rate(ranges: Seq<ConfigRange>) -> bool {
    exists|j: int| 0 <= j < ranges.len() && (#[trigger] ranges[j]).has_rate()
}

fn find_config(input: bool, ranges: &Vec<ConfigRange>) -> (r: Result<usize, DeviceError>)
    ensures
        match r {
            Ok(i) => is_best(ranges@, i as int),
            Err(e) => !some_has_rate(ranges@) && e == (DeviceError::RateUnsupported { input }),
        },
{
    let mut best: Option<usize> = None;
    let mut i: usize = 0;
    while i < ranges.len()
        invariant
            i <= ranges@.len(),
            match best {
                Some(b) => b < i && is_best(ranges@.take(i as int), b as int),
                None => !some_has_rate(ranges@.take(i as int)),
            },
        decreases ranges.len() - i,
    {
        let ghost seen = ranges@.take(i as int);
        let ghost now = ranges@.take(i + 1);
        assert(forall|j: int| 0 <= j < i ==> seen[j] == now[j]);
        assert(now[i as int] == ranges@[i as int]);
        if ranges[i].min_sample_rate <= SAMPLE_RATE && ranges[i].max_sample_rate >= SAMPLE_RATE {
            match best {
                Some(b) => {
                    assert(seen[b as int] == ranges@[b as int]);
                    if ranges[i].channels < ranges[b].channels {
                        best = Some(i);
                    }
                },
                None => {
                    assert forall|j: int| 0 <= j < i implies !(#[trigger] now[j]).has_rate() by {
                        assert(!seen[j].has_rate());
                    }
                    best = Some(i);
                },
            }
        } else {
            proof {
                if best is None {
                    assert forall|j: int| 0 <= j < now.len() implies !(
                    #[trigger] now[j]).has_rate() by {
                        if j < i {
                            assert(!seen[j].has_rate());
                        }
                    }
                }
            }
        }
        i = i + 1;
    }
    assert(ranges@.take(i as int) == ranges@);
    match best {
        Some(b) => Ok(b),
        None => Err(DeviceError::RateUnsupported { input }),
    }
}

/// Chooses the configuration to capture with.
pub fn find_input_config(ranges: &Vec<ConfigRange>) -> (r: Result<usize, DeviceError>)
    ensures
        match r {
            Ok(i) => is_best(ranges@, i as int),
            Err(e) => !some_has_rate(ranges@) && e == (DeviceError::RateUnsupported {
                input: true,
            }),
        },
{
    find_config(true, ranges)
}

/// Chooses the configuration to play with.
pub fn find_output_config(ranges: &Vec<ConfigRange>) -> (r: Result<usize, DeviceError>)
    ensures
        match r {
            Ok(i) => is_best(ranges@, i as int),
            Err(e) => !some_has_rate(ranges@) && e == (DeviceError::RateUnsupported {
                input: false,
            }),
        },
{
    find_config(false, ranges)
}

/// How to open a stream: with which of the configurations, how many channels, and which samples.
#[derive(Clone, Copy, Debug, PartialEq, Eq, Structural)]
pub struct StreamPlan {
    pub config: usize,
    pub channels: usize,
    pub format: SampleKind,
}

/// Whether `plan` follows from the configurations: the one to use, as it is, if its format can be
/// used; the error says what is missing.
pub open spec fn is_plan(
    input: bool,
    ranges: Seq<ConfigRange>,
    plan: Result<StreamPlan, DeviceError>,
) -> bool {
    match plan {
        Ok(p) => {
            &&& is_best(ranges, p.config as int)
            &&& p.channels == ranges[p.config as int].channels
            &&& usable(ranges[p.config as int].format) == Some(p.format)
        },
        Err(DeviceError::RateUnsupported { input: i }) => i == input && !some_has_rate(ranges),
        Err(DeviceError::FormatUnsupported { input: i, format }) => i == input && exists|k: int|
            is_best(ranges, k) && unusable_name((#[trigger] ranges[k]).format) == Some(format@),
        Err(_) => false,
    }
}

fn plan_with(input: bool, ranges: &Vec<ConfigRange>, config: usize) -> (r: Result<
    StreamPlan,
    DeviceError,
>)
    requires
        is_best(ranges@, config as int),
    ensures
        is_plan(input, ranges@, r),
{
    let channels: usize = ranges[config].channels as usize;
    match &ranges[config].format {
        SampleFormat::F32 => Ok(StreamPlan { config, channels, format: SampleKind::F32 }),
        SampleFormat::I16 => Ok(StreamPlan { config, channels, format: SampleKind::I16 }),
        SampleFormat::I32 => Ok(StreamPlan { config, channels, format: SampleKind::I32 }),
        SampleFormat::U8 => Ok(StreamPlan { config, channels, format: SampleKind::U8 }),
        SampleFormat::Other(name) => {
            let format = name.clone();
            assert(unusable_name(ranges@[config as int].format) == Some(format@));
            Err(DeviceError::FormatUnsupported { input, format })
        },
    }
}

/// Plans the capture stream of a device with these configurations.
pub fn plan_capture(ranges: &Vec<ConfigRange>) -> (r: Result<StreamPlan, DeviceError>)
    ensures
        is_plan(true, ranges@, r),
{
    match find_input_config(ranges) {
        Ok(config) => plan_with(true, ranges, config),
        Err(e) => Err(e),
    }
}

/// Plans the playback stream of a device with these configurations.
pub fn plan_playback(ranges: &Vec<ConfigRange>) -> (r: Result<StreamPlan, DeviceError>)
    ensures
        is_plan(false, ranges@, r),
{
    match find_output_config(ranges) {
        Ok(config) => plan_with(false, ranges, config),
        Err(e) => Err(e),
    }
}

/// There is one configuration to use at most, so a plan is decided by the configurations alone.
pub proof fn lemma_best_is_unique(ranges: Seq<ConfigRange>, i: int, j: int)
    requires
        is_best(ranges, i),
        is_best(ranges, j),
    ensures
        i == j,
{
}

/// A configuration to use exists exactly where some configuration has the sample rate.
pub proof fn lemma_best_exists(ranges: Seq<ConfigRange>)
    ensures
        some_has_rate(ranges) <==> exists|i: int| is_best(ranges, i),
    decreases ranges.len(),
{
    if some_has_rate(ranges) {
        let front = ranges.drop_last();
        let last = ranges.len() - 1;
        if some_has_rate(front) {
            lemma_best_exists(front);
            let b = choose|i: int| is_best(front, i);
            assert(front[b] == ranges[b]);
            if ranges[last].has_rate() && ranges[last].channels < ranges[b].channels {
                assert forall|j: int|
                    0 <= j < ranges.len() && (#[trigger] ranges[j]).has_rate() implies (
                ranges[last].channels < ranges[j].channels || (ranges[last].channels
                    == ranges[j].channels && last <= j)) by {
                    if j < last {
                        assert(front[j] == ranges[j]);
                    }
                }
                assert(is_best(ranges, last));
            } else {
                assert forall|j: int|
                    0 <= j < ranges.len() && (#[trigger] ranges[j]).has_rate() implies (
                ranges[b].channels < ranges[j].channels || (ranges[b].channels
                    == ranges[j].channels && b <= j)) by {
                    if j < last {
                        assert(front[j] == ranges[j]);
                    }
                }
                assert(is_best(ranges, b));
            }
        } else {
            assert forall|j: int| 0 <= j < last implies !(#[trigger] ranges[j]).has_rate() by {
                assert(!front[j].has_rate());
            }
            assert(is_best(ranges, last));
        }
    }
}

/// Whether a device has a name, by the list of names: it has exactly the name that it is listed
/// with, and a device that does not tell its name has none.
pub proof fn lemma_device_has_its_listed_name(names: Seq<Option<String>>, i: int, name: Seq<char>)
    requires
        0 <= i < names.len(),
    ensures
        names[i] is None ==> !has_name(names, i, name),
        names[i] matches Some(n) ==> (has_name(names, i, name) <==> n@ == name),
{
}

/// The configuration to use can run at 48000 samples per second. No other that can has fewer
/// channels, and none before it has as few.
pub proof fn lemma_best_has_rate_and_fewest_channels(ranges: Seq<ConfigRange>, i: int)
    requires
        is_best(ranges, i),
    ensures
        0 <= i < ranges.len(),
        ranges[i].min_sample_rate <= 48_000 <= ranges[i].max_sample_rate,
        forall|j: int|
            0 <= j < ranges.len() && (#[trigger] ranges[j]).min_sample_rate <= 48_000
                <= ranges[j].max_sample_rate ==> ranges[i].channels <= ranges[j].channels,
        forall|j: int|
            0 <= j < i && (#[trigger] ranges[j]).min_sample_rate <= 48_000
                <= ranges[j].max_sample_rate ==> ranges[i].channels < ranges[j].channels,
{
    assert forall|j: int|
        0 <= j < ranges.len() && (#[trigger] ranges[j]).min_sample_rate <= 48_000
            <= ranges[j].max_sample_rate implies ranges[i].channels <= ranges[j].channels by {
        assert(ranges[j].has_rate());
    }
    assert forall|j: int|
        0 <= j < i && (#[trigger] ranges[j]).min_sample_rate <= 48_000 <= ranges[j].max_sample_rate
        implies ranges[i].channels < ranges[j].channels by {
        assert(ranges[j].has_rate());
    }
}

/// That no configuration has the sample rate means that 48000 lies in none of the ranges.
pub proof fn lemma_rate_is_missing_where_no_range_has_it(ranges: Seq<ConfigRange>)
    ensures
        some_has_rate(ranges) <==> exists|j: int|
            0 <= j < ranges.len() && (#[trigger] ranges[j]).min_sample_rate <= 48_000
                <= ranges[j].max_sample_rate,
{
    if some_has_rate(ranges) {
        let j = choose|j: int| 0 <= j < ranges.len() && (#[trigger] ranges[j]).has_rate();
        assert(ranges[j].min_sample_rate <= 48_000 <= ranges[j].max_sample_rate);
    }
    if exists|j: int|
        0 <= j < ranges.len() && (#[trigger] ranges[j]).min_sample_rate <= 48_000
            <= ranges[j].max_sample_rate {
        let j = choose|j: int|
            0 <= j < ranges.len() && (#[trigger] ranges[j]).min_sample_rate <= 48_000
                <= ranges[j].max_sample_rate;
        assert(ranges[j].has_rate());
    }
}

/// A plan has the channels and the format of the configuration to use, and there is a plan exactly
/// where there is such a configuration and its format is one of the four; else the error says
/// which of the two is missing, in which direction, and names the format.
pub proof fn lemma_plan_is_of_best_configuration(
    input: bool,
    ranges: Seq<ConfigRange>,
    i: int,
    plan: Result<StreamPlan, DeviceError>,
)
    requires
        is_plan(input, ranges, plan),
        is_best(ranges, i),
    ensures
        match ranges[i].format {
            SampleFormat::F32 => plan == Ok::<StreamPlan, DeviceError>(
                StreamPlan {
                    config: i as usize,
                    channels: ranges[i].channels as usize,
                    format: SampleKind::F32,
                },
            ),
            SampleFormat::I16 => plan == Ok::<StreamPlan, DeviceError>(
                StreamPlan {
                    config: i as usize,
                    channels: ranges[i].channels as usize,
                    format: SampleKind::I16,
                },
            ),
            SampleFormat::I32 => plan == Ok::<StreamPlan, DeviceError>(
                StreamPlan {
                    config: i as usize,
                    channels: ranges[i].channels as usize,
                    format: SampleKind::I32,
                },
            ),
            SampleFormat::U8 => plan == Ok::<StreamPlan, DeviceError>(
                StreamPlan {
                    config: i as usize,
                    channels: ranges[i].channels as usize,
                    format: SampleKind::U8,
                },
            ),
            SampleFormat::Other(name) => match plan {
                Err(DeviceError::FormatUnsupported { input: side, format }) => side == input
                    && format@ == name@,
                _ => false,
            },
        },
{
    assert(some_has_rate(ranges)) by {
        assert(ranges[i].has_rate());
    }
    match plan {
        Ok(p) => {
            lemma_best_is_unique(ranges, i, p.config as int);
        },
        Err(DeviceError::FormatUnsupported { input: side, format }) => {
            let k = choose|k: int|
                is_best(ranges, k) && unusable_name((#[trigger] ranges[k]).format) == Some(format@);
            lemma_best_is_unique(ranges, i, k);
        },
        Err(_) => {},
    }
}

/// Without a configuration of the sample rate there is no plan, and the error says so.
pub proof fn lemma_no_plan_without_rate(
    input: bool,
    ranges: Seq<ConfigRange>,
    plan: Result<StreamPlan, DeviceError>,
)
    requires
        is_plan(input, ranges, plan),
        forall|j: int|
            0 <= j < ranges.len() ==> !((#[trigger] ranges[j]).min_sample_rate <= 48_000
                <= ranges[j].max_sample_rate),
    ensures
        plan matches Err(e) && e == (DeviceError::RateUnsupported { input }),
{
    lemma_rate_is_missing_where_no_range_has_it(ranges);
    lemma_best_exists(ranges);
}

/// The message of an error has in it, in full, what the error speaks of.
pub proof fn lemma_messages_name_what_is_wrong(name: String)
    ensures
        DeviceError::NotFound(name).text() == "device '"@ + name@ + "' not found"@,
        (DeviceError::FormatUnsupported { input: true, format: name }).text()
            == "unsupported "@ + "input"@ + " sample format: "@ + name@,
        (DeviceError::FormatUnsupported { input: false, format: name }).text()
            == "unsupported "@ + "output"@ + " sample format: "@ + name@,
        (DeviceError::NoDefault { input: true }).text() == "no default "@ + "input"@ + " device"@,
        (DeviceError::NoDefault { input: false }).text() == "no default "@ + "output"@ + " device"@,
        (DeviceError::RateUnsupported { input: true }).text()
            == "input"@ + " device does not support 48000Hz"@,
        (DeviceError::RateUnsupported { input: false }).text()
            == "output"@ + " device does not support 48000Hz"@,
{
}

} // verus!
