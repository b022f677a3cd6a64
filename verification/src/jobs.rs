//! Job specifications for a batch of downloads.
//!
//! A batch shares one mode, one optional quality tier and one destination
//! directory across every target. The builder turns a raw delimited target
//! string into one well-formed [`JobSpec`] per target, or reports why the
//! batch cannot start. A quality tier is present exactly when the mode is
//! video, and a spec's target is always non-empty and trimmed.

use vstd::prelude::*;

use crate::text::{lemma_target_list_wf, parse_targets, target_list, trimmed};

verus! {

/// What kind of media a batch downloads.
#[derive(Clone, Copy, PartialEq, Eq, Structural, Debug)]
pub enum DownloadType {
    Video,
    Audio,
}

/// An upper bound on vertical resolution for video downloads.
#[derive(Clone, Copy, PartialEq, Eq, Structural, Debug)]
pub enum QualityTier {
    Height360,
    Height480,
    Height720,
    Height1080,
}

impl DownloadType {
    /// The mode a menu choice selects: the first entry is audio, every
    /// other entry is video.
    pub fn from_choice(choice: usize) -> (t: DownloadType)
        ensures
            t == (if choice == 0 {
                DownloadType::Audio
            } else {
                DownloadType::Video
            }),
    {
        if choice == 0 {
            DownloadType::Audio
        } else {
            DownloadType::Video
        }
    }
}

impl QualityTier {
    /// The greatest height, in pixels, that this tier allows.
    pub open spec fn spec_height_cap(self) -> int {
        match self {
            QualityTier::Height360 => 360,
            QualityTier::Height480 => 480,
            QualityTier::Height720 => 720,
            QualityTier::Height1080 => 1080,
        }
    }

    /// The greatest height, in pixels, that this tier allows.
    pub fn height_cap(self) -> (h: u32)
        ensures
            h == self.spec_height_cap(),
    {
        match self {
            QualityTier::Height360 => 360,
            QualityTier::Height480 => 480,
            QualityTier::Height720 => 720,
            QualityTier::Height1080 => 1080,
        }
    }

    /// The tier a menu choice selects, lowest first; `None` for a choice
    /// past the end of the menu.
    pub fn from_choice(choice: usize) -> (r: Option<QualityTier>)
        ensures
            r == (match choice {
                0 => Some(QualityTier::Height360),
                1 => Some(QualityTier::Height480),
                2 => Some(QualityTier::Height720),
                3 => Some(QualityTier::Height1080),
                _ => None::<QualityTier>,
            }),
    {
        match choice {
            0 => Some(QualityTier::Height360),
            1 => Some(QualityTier::Height480),
            2 => Some(QualityTier::Height720),
            3 => Some(QualityTier::Height1080),
            _ => None,
        }
    }

    /// The menu label of this tier.
    pub open spec fn spec_label(self) -> Seq<char> {
        match self {
            QualityTier::Height360 => "360p"@,
            QualityTier::Height480 => "480p"@,
            QualityTier::Height720 => "720p"@,
            QualityTier::Height1080 => "1080p"@,
        }
    }

    /// The menu label of this tier.
    pub fn label(self) -> (l: String)
        ensures
            l@ == self.spec_label(),
    {
        match self {
            QualityTier::Height360 => String::from_str("360p"),
            QualityTier::Height480 => String::from_str("480p"),
            QualityTier::Height720 => String::from_str("720p"),
            QualityTier::Height1080 => String::from_str("1080p"),
        }
    }
}

/// The format-selection expression handed to the external tool for a tier:
/// the best stream whose height does not exceed the tier's cap.
pub open spec fn spec_format_constraint(q: QualityTier) -> Seq<char> {
    match q {
        QualityTier::Height360 => "best[height<=360]"@,
        QualityTier::Height480 => "best[height<=480]"@,
        QualityTier::Height720 => "best[height<=720]"@,
        QualityTier::Height1080 => "best[height<=1080]"@,
    }
}

/// The format-selection expression for a tier.
pub fn format_constraint(q: QualityTier) -> (f: String)
    ensures
        f@ == spec_format_constraint(q),
{
    match q {
        QualityTier::Height360 => String::from_str("best[height<=360]"),
        QualityTier::Height480 => String::from_str("best[height<=480]"),
        QualityTier::Height720 => String::from_str("best[height<=720]"),
        QualityTier::Height1080 => String::from_str("best[height<=1080]"),
    }
}

/// Everything one worker needs to download one target.
#[derive(Debug)]
pub struct JobSpec {
    /// The target identifier (a URL), non-empty and trimmed.
    pub target: String,
    /// The batch's mode, shared by every job of the batch.
    pub mode: DownloadType,
    /// The batch's quality tier; present exactly when the mode is video.
    pub quality: Option<QualityTier>,
    /// The directory the external tool downloads into.
    pub destination: String,
}

/// The mathematical value of a [`JobSpec`].
pub struct JobSpecV {
    pub target: Seq<char>,
    pub mode: DownloadType,
    pub quality: Option<QualityTier>,
    pub destination: Seq<char>,
}

impl View for JobSpec {
    type V = JobSpecV;

    open spec fn view(&self) -> JobSpecV {
        JobSpecV {
            target: self.target@,
            mode: self.mode,
            quality: self.quality,
            destination: self.destination@,
        }
    }
}

impl JobSpecV {
    /// A well-formed job: the quality tier is present exactly when the
    /// mode is video, and the target is non-empty with no whitespace to
    /// trim at either end.
    pub open spec fn wf(self) -> bool {
        &&& (self.mode == DownloadType::Video) <==> (self.quality is Some)
        &&& self.target.len() > 0
        &&& trimmed(self.target) == self.target
    }
}

/// Why a batch cannot start; no process is spawned when the builder fails.
#[derive(Clone, Copy, PartialEq, Eq, Structural, Debug)]
pub enum InputError {
    /// The raw target string held no non-empty target.
    NoTargets,
    /// A video batch lacked a quality tier, or an audio batch carried one.
    QualityMismatch,
}

/// Whether a quality selection is valid for a mode: a tier is present
/// exactly when the mode is video.
pub open spec fn quality_matches_mode(mode: DownloadType, quality: Option<QualityTier>) -> bool {
    (mode == DownloadType::Video) <==> (quality is Some)
}

/// The views of a sequence of job specifications.
pub open spec fn job_views(jobs: Seq<JobSpec>) -> Seq<JobSpecV> {
    jobs.map_values(|j: JobSpec| j@)
}

/// Build one job specification per target of a raw delimited string.
///
/// Succeeds exactly when the quality selection matches the mode and at
/// least one target remains after trimming; the jobs then carry the
/// targets in input order, each sharing the batch's mode, quality and
/// destination.
pub fn build_job_specs(
    raw_targets: &str,
    mode: DownloadType,
    quality: Option<QualityTier>,
    destination: &str,
) -> (r: Result<Vec<JobSpec>, InputError>)
    ensures
        r is Ok <==> quality_matches_mode(mode, quality) && target_list(raw_targets@).len() > 0,
        match r {
            Ok(jobs) => {
                &&& jobs@.len() == target_list(raw_targets@).len()
                &&& forall|i: int|
                    0 <= i < jobs@.len() ==> {
                        &&& (#[trigger] jobs@[i])@.target == target_list(raw_targets@)[i]
                        &&& jobs@[i]@.mode == mode
                        &&& jobs@[i]@.quality == quality
                        &&& jobs@[i]@.destination == destination@
                        &&& jobs@[i]@.wf()
                    }
            },
            Err(e) => {
                &&& (e == InputError::QualityMismatch) <==> !quality_matches_mode(mode, quality)
                &&& (e == InputError::NoTargets) <==> (quality_matches_mode(mode, quality)
                    && target_list(raw_targets@).len() == 0)
            },
        },
{
    let video = mode == DownloadType::Video;
    if video != quality.is_some() {
        return Err(InputError::QualityMismatch);
    }
    let targets = parse_targets(raw_targets);
    if targets.len() == 0 {
        return Err(InputError::NoTargets);
    }
    let mut jobs: Vec<JobSpec> = Vec::new();
    let mut k: usize = 0;
    while k < targets.len()
        invariant
            k <= targets@.len(),
            targets.deep_view() =~~= target_list(raw_targets@),
            jobs@.len() == k,
            forall|i: int|
                0 <= i < k ==> {
                    &&& (#[trigger] jobs@[i])@.target == target_list(raw_targets@)[i]
                    &&& jobs@[i]@.mode == mode
                    &&& jobs@[i]@.quality == quality
                    &&& jobs@[i]@.destination == destination@
                },
        decreases targets@.len() - k,
    {
        let job = JobSpec {
            target: targets[k].clone(),
            mode,
            quality,
            destination: destination.to_owned(),
        };
        jobs.push(job);
        k = k + 1;
    }
    proof {
        lemma_target_list_wf(raw_targets@);
    }
    Ok(jobs)
}

} // verus!
