//! General information on a segment.

use vstd::prelude::*;

use crate::ebml::{fields_of, ElementData, Fields};
use crate::element_id::ElementId;
use crate::error::DemuxError;
use crate::fields::{date_field, float_field, mandatory, nonzero_field_or, string_field};
use crate::fields::{find_nonzero_or, find_string, try_find_date, try_find_float, try_find_string};
use crate::number::{Float, NonZeroU64};

verus! {

/// The Info element.
#[derive(Clone, Debug)]
pub struct Info {
    timestamp_scale: NonZeroU64,
    duration: Option<Float>,
    date_utc: Option<i64>,
    title: Option<String>,
    muxing_app: String,
    writing_app: String,
}

/// What an [`Info`] stands for.
pub struct InfoView {
    /// Timestamp scale in nanoseconds.
    pub timestamp_scale: u64,
    /// Duration of the segment.
    pub duration: Option<Float>,
    /// The date and time at which the segment was created.
    pub date_utc: Option<i64>,
    /// General name of the segment.
    pub title: Option<Seq<char>>,
    /// Muxing application or library.
    pub muxing_app: Seq<char>,
    /// Writing application.
    pub writing_app: Seq<char>,
}

impl View for Info {
    type V = InfoView;

    closed spec fn view(&self) -> InfoView {
        InfoView {
            timestamp_scale: self.timestamp_scale@,
            duration: self.duration,
            date_utc: self.date_utc,
            title: match self.title {
                Some(title) => Some(title@),
                None => None,
            },
            muxing_app: self.muxing_app@,
            writing_app: self.writing_app@,
        }
    }
}

/// The information that the children of the Info element give: the first child that is missing, has
/// the wrong type or is zero is the error, and after that a duration below zero.
pub open spec fn info_of(fields: Fields) -> Result<InfoView, DemuxError> {
    let timestamp_scale = nonzero_field_or(fields, ElementId::TimestampScale, 1_000_000);
    let duration = float_field(fields, ElementId::Duration);
    let date_utc = date_field(fields, ElementId::DateUtc);
    let title = string_field(fields, ElementId::Title);
    let muxing_app = mandatory(string_field(fields, ElementId::MuxingApp), ElementId::MuxingApp);
    let writing_app = mandatory(string_field(fields, ElementId::WritingApp), ElementId::WritingApp);
    if let Err(error) = timestamp_scale {
        Err(error)
    } else if let Err(error) = duration {
        Err(error)
    } else if let Err(error) = date_utc {
        Err(error)
    } else if let Err(error) = title {
        Err(error)
    } else if let Err(error) = muxing_app {
        Err(error)
    } else if let Err(error) = writing_app {
        Err(error)
    } else if duration->Ok_0 is Some && duration->Ok_0->Some_0.below_zero() {
        Err(DemuxError::PositiveValueIsNotPositive)
    } else {
        Ok(
            InfoView {
                timestamp_scale: timestamp_scale->Ok_0,
                duration: duration->Ok_0,
                date_utc: date_utc->Ok_0,
                title: title->Ok_0,
                muxing_app: muxing_app->Ok_0,
                writing_app: writing_app->Ok_0,
            },
        )
    }
}

impl Info {
    /// Makes the information of the children of the Info element.
    pub fn new(fields: &[(ElementId, ElementData)]) -> (result: Result<Info, DemuxError>)
        ensures
            match (result, info_of(fields_of(fields@))) {
                (Ok(info), Ok(view)) => info@ == view,
                (Err(error), Err(cause)) => error == cause,
                _ => false,
            },
    {
        let timestamp_scale = find_nonzero_or(fields, ElementId::TimestampScale, 1000000)?;
        let duration = try_find_float(fields, ElementId::Duration)?;
        let date_utc = try_find_date(fields, ElementId::DateUtc)?;
        let title = try_find_string(fields, ElementId::Title)?;
        let muxing_app = find_string(fields, ElementId::MuxingApp)?;
        let writing_app = find_string(fields, ElementId::WritingApp)?;

        if let Some(duration) = duration {
            if duration.is_below_zero() {
                return Err(DemuxError::PositiveValueIsNotPositive);
            }
        }
        Ok(Self { timestamp_scale, duration, date_utc, title, muxing_app, writing_app })
    }

    /// Timestamp scale in nanoseconds (1_000_000 means all timestamps in the Segment are expressed in milliseconds).
    pub fn timestamp_scale(&self) -> (timestamp_scale: NonZeroU64)
        ensures
            timestamp_scale@ == self@.timestamp_scale,
    {
        self.timestamp_scale
    }

    /// Duration of the Segment in nanoseconds based on TimestampScale.
    pub fn duration(&self) -> (duration: Option<Float>)
        ensures
            duration == self@.duration,
    {
        self.duration
    }

    /// The date and time that the Segment was created by the muxing application or library.
    pub fn date_utc(&self) -> (date_utc: Option<i64>)
        ensures
            date_utc == self@.date_utc,
    {
        self.date_utc
    }

    /// General name of the Segment.
    pub fn title(&self) -> (title: Option<&str>)
        ensures
            match (title, self@.title) {
                (Some(title), Some(view)) => title@ == view,
                (None, None) => true,
                _ => false,
            },
    {
        match &self.title {
            None => None,
            Some(title) => Some(title.as_str()),
        }
    }

    /// Muxing application or library.
    pub fn muxing_app(&self) -> (muxing_app: &str)
        ensures
            muxing_app@ == self@.muxing_app,
    {
        self.muxing_app.as_str()
    }

    /// Writing  application.
    pub fn writing_app(&self) -> (writing_app: &str)
        ensures
            writing_app@ == self@.writing_app,
    {
        self.writing_app.as_str()
    }
}

} // verus!
