//! The status line above the waveform: what is being previewed, loaded or shown.
use vstd::prelude::*;

verus! {

/// The decimal digit for `digit` (below ten).
pub open spec fn digit_char(digit: nat) -> char {
    (48 + digit) as char
}

/// The decimal text of `value`, without leading zeros.
pub open spec fn decimal_text(value: nat) -> Seq<char>
    decreases value,
{
    if value < 10 {
        seq![digit_char(value)]
    } else {
        decimal_text(value / 10).push(digit_char(value % 10))
    }
}

/// The text of one decimal digit.
fn digit_text(digit: u64) -> (text: &'static str)
    requires
        digit < 10,
    ensures
        text@ == seq![digit_char(digit as nat)],
{
    proof {
        reveal_strlit("0");
        reveal_strlit("1");
        reveal_strlit("2");
        reveal_strlit("3");
        reveal_strlit("4");
        reveal_strlit("5");
        reveal_strlit("6");
        reveal_strlit("7");
        reveal_strlit("8");
        reveal_strlit("9");
    }
    match digit {
        0 => "0",
        1 => "1",
        2 => "2",
        3 => "3",
        4 => "4",
        5 => "5",
        6 => "6",
        7 => "7",
        8 => "8",
        _ => "9",
    }
}

/// Append the decimal digits of `value` to `text`.
fn append_decimal(text: &mut String, value: u64)
    ensures
        final(text)@ == old(text)@ + decimal_text(value as nat),
    decreases value,
{
    if value >= 10 {
        append_decimal(text, value / 10);
    }
    text.append(digit_text(value % 10));
    assert(decimal_text(value as nat) == if value < 10 {
        seq![digit_char(value as nat)]
    } else {
        decimal_text((value / 10) as nat).push(digit_char((value % 10) as nat))
    });
}

/// The decimal text of `value`, as `u64::to_string` gives it.
fn decimal(value: u64) -> (text: String)
    ensures
        text@ == decimal_text(value as nat),
{
    let mut text = String::new();
    append_decimal(&mut text, value);
    assert(text@ =~= decimal_text(value as nat));
    text
}

/// How far an instant preview of the waveform has come.
#[derive(Clone, Copy, Debug, PartialEq, Eq, Structural)]
pub enum InstantWaveformPreviewTier {
    /// The head of the file is shown.
    Head,
}

/// The loaded sample, as the waveform shows it.
#[derive(Clone, Debug, PartialEq, Eq)]
pub struct LoadedWaveform {
    pub file_name: String,
    pub sample_rate: u64,
    pub channels: u64,
    pub frames: u64,
}

pub open spec fn opt_label(label: Option<&str>) -> Option<Seq<char>> {
    match label {
        Some(text) => Some(text@),
        None => None,
    }
}

/// The status line.
pub open spec fn title_text(
    loaded: Option<LoadedWaveform>,
    instant_preview_label: Option<Seq<char>>,
    instant_preview_tier: Option<InstantWaveformPreviewTier>,
    loading_label: Option<Seq<char>>,
    failed_label: Option<Seq<char>>,
) -> Seq<char> {
    if instant_preview_label is Some {
        let label = instant_preview_label->0;
        match instant_preview_tier {
            Some(InstantWaveformPreviewTier::Head) => "Previewing "@ + label + " | preview"@,
            None => "Loading preview "@ + label,
        }
    } else if loading_label is Some {
        "Loading "@ + loading_label->0
    } else if failed_label is Some {
        "Could not load "@ + failed_label->0
    } else {
        match loaded {
            None => "No sample loaded"@,
            Some(sample) => sample.file_name@ + " | "@ + decimal_text(sample.sample_rate as nat)
                + " Hz | "@ + decimal_text(sample.channels as nat) + " channel"@ + (if sample.channels
                == 1 {
                ""@
            } else {
                "s"@
            }) + " -> mono | "@ + decimal_text(sample.frames as nat) + " frames"@,
        }
    }
}

/// The status line above the waveform: an instant preview first, then a load in progress,
/// then a failed load, then the loaded sample's name, rate, channels and length.
pub fn waveform_title(
    loaded: Option<&LoadedWaveform>,
    instant_preview_label: Option<&str>,
    instant_preview_tier: Option<InstantWaveformPreviewTier>,
    loading_label: Option<&str>,
    failed_label: Option<&str>,
) -> (title: String)
    ensures
        title@ == title_text(
            match loaded {
                Some(sample) => Some(*sample),
                None => None,
            },
            opt_label(instant_preview_label),
            instant_preview_tier,
            opt_label(loading_label),
            opt_label(failed_label),
        ),
{
    if let Some(label) = instant_preview_label {
        return match instant_preview_tier {
            Some(InstantWaveformPreviewTier::Head) => {
                let mut title = String::from_str("Previewing ");
                title.append(label);
                title.append(" | preview");
                title
            },
            None => {
                let mut title = String::from_str("Loading preview ");
                title.append(label);
                title
            },
        };
    }
    if let Some(label) = loading_label {
        let mut title = String::from_str("Loading ");
        title.append(label);
        return title;
    }
    if let Some(label) = failed_label {
        let mut title = String::from_str("Could not load ");
        title.append(label);
        return title;
    }
    let sample = match loaded {
        Some(sample) => sample,
        None => {
            return String::from_str("No sample loaded");
        },
    };
    let mut title = String::from_str(sample.file_name.as_str());
    title.append(" | ");
    title.append(decimal(sample.sample_rate).as_str());
    title.append(" Hz | ");
    title.append(decimal(sample.channels).as_str());
    title.append(" channel");
    if sample.channels == 1 {
        title.append("");
    } else {
        title.append("s");
    }
    title.append(" -> mono | ");
    title.append(decimal(sample.frames).as_str());
    title.append(" frames");
    title
}

} // verus!
