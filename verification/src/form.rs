//! The workspace forms as plain values, and the run each asks for.
use vstd::prelude::*;
use vstd::string::*;
use crate::choices::{
    container, container_of_label, decoding, decoding_choice, encoding, encoding_choice, encoding_ready,
    form_video, known_decoder,
};
use crate::decoding::DecodingBackend;
use crate::encoding::{with_rate, RateControl, VideoEncoding};
use crate::plan::{TranscodeRequest, VideoAction};
use crate::quality::{quality_error, validate_action, validate_encoding, VmafMode};
use crate::text::{chars_of, parse_u32_chars, parse_u64_chars, parse_u8_chars, parse_unsigned, str_eq, string_of, trim, trim_chars};

verus! {

/// The rate control the rate, quality and bitrate fields select, or why they
/// select none; `None` for a rate label the form does not offer.
pub open spec fn rate_choice_of(label: Seq<char>, quality: Seq<char>, bitrate: Seq<char>) -> Option<
    Result<Option<RateControl>, Seq<char>>,
> {
    if label == "Quality"@ {
        Some(
            match parse_unsigned(trim(quality), u8::MAX as nat) {
                Some(q) => Ok(Some(RateControl::Quality(q as u8))),
                None => Err("Quality must be an integer from 0 to 255"@),
            },
        )
    } else if label == "Bitrate"@ {
        Some(
            match parse_unsigned(trim(bitrate), u64::MAX as nat) {
                Some(b) => if b > 0 {
                    Ok(Some(RateControl::Bitrate(b as u64)))
                } else {
                    Err("Bitrate must be an integer greater than zero"@)
                },
                None => Err("Bitrate must be an integer greater than zero"@),
            },
        )
    } else if label == "Encoder default"@ {
        Some(Ok(None))
    } else {
        None
    }
}

/// The rate control the rate, quality and bitrate fields select.
pub fn rate_choice(label: &str, quality: &str, bitrate: &str) -> (r: Result<Option<RateControl>, String>)
    requires
        rate_choice_of(label@, quality@, bitrate@) is Some,
    ensures
        match rate_choice_of(label@, quality@, bitrate@)->0 {
            Ok(v) => r == Ok::<Option<RateControl>, String>(v),
            Err(m) => r matches Err(x) && x@ == m,
        },
{
    if str_eq(label, "Quality") {
        let text = trim_chars(chars_of(quality).as_slice());
        match parse_u8_chars(text.as_slice()) {
            Some(q) => Ok(Some(RateControl::Quality(q))),
            None => Err(String::from_str("Quality must be an integer from 0 to 255")),
        }
    } else if str_eq(label, "Bitrate") {
        let text = trim_chars(chars_of(bitrate).as_slice());
        match parse_u64_chars(text.as_slice()) {
            Some(b) => if b > 0 {
                Ok(Some(RateControl::Bitrate(b)))
            } else {
                Err(String::from_str("Bitrate must be an integer greater than zero"))
            },
            None => Err(String::from_str("Bitrate must be an integer greater than zero")),
        }
    } else {
        Ok(None)
    }
}

/// The VMAF scoring the VMAF and subsample fields select, or why they select
/// none; `None` for a VMAF label the form does not offer.
pub open spec fn vmaf_choice_of(label: Seq<char>, n_subsample: Seq<char>) -> Option<
    Result<Option<VmafMode>, Seq<char>>,
> {
    if label == "Off"@ {
        Some(Ok(None))
    } else if label == "Full"@ {
        Some(Ok(Some(VmafMode::Full)))
    } else if label == "Subsample"@ {
        Some(
            match parse_unsigned(trim(n_subsample), u32::MAX as nat) {
                Some(n) => if n > 0 {
                    Ok(Some(VmafMode::Subsample(n as u32)))
                } else {
                    Err("N subsample must be an integer greater than zero"@)
                },
                None => Err("N subsample must be an integer greater than zero"@),
            },
        )
    } else {
        None
    }
}

/// The VMAF scoring the VMAF and subsample fields select.
pub fn vmaf_choice(label: &str, n_subsample: &str) -> (r: Result<Option<VmafMode>, String>)
    requires
        vmaf_choice_of(label@, n_subsample@) is Some,
    ensures
        match vmaf_choice_of(label@, n_subsample@)->0 {
            Ok(v) => r == Ok::<Option<VmafMode>, String>(v),
            Err(m) => r matches Err(x) && x@ == m,
        },
{
    if str_eq(label, "Off") {
        Ok(None)
    } else if str_eq(label, "Full") {
        Ok(Some(VmafMode::Full))
    } else {
        let text = trim_chars(chars_of(n_subsample).as_slice());
        match parse_u32_chars(text.as_slice()) {
            Some(n) => if n > 0 {
                Ok(Some(VmafMode::Subsample(n)))
            } else {
                Err(String::from_str("N subsample must be an integer greater than zero"))
            },
            None => Err(String::from_str("N subsample must be an integer greater than zero")),
        }
    }
}

/// What the decoder and encoder fields of a form hold.
pub struct VideoInputs {
    pub decoder: String,
    pub decode_device: String,
    pub encoder: String,
    pub preset: String,
    pub multipass: String,
    pub encode_device: String,
}

impl VideoInputs {
    /// Whether every choice field holds one of the form's own choices.
    pub open spec fn ready(&self) -> bool {
        &&& known_decoder(self.decoder@)
        &&& encoding_ready(self.encoder@, self.preset@, self.multipass@)
    }

    /// Whether `e` is the encoding these fields select.
    pub open spec fn chooses(&self, e: VideoEncoding) -> bool {
        encoding_choice(self.encoder@, self.preset@, self.multipass@, self.encode_device@, e)
    }

    /// The decoder and the encoding the fields select.
    pub fn build(&self) -> (r: (DecodingBackend, VideoEncoding))
        requires
            self.ready(),
        ensures
            decoding_choice(self.decoder@, self.decode_device@, r.0),
            self.chooses(r.1),
    {
        (
            decoding(self.decoder.as_str(), self.decode_device.as_str()),
            encoding(
                self.encoder.as_str(),
                self.preset.as_str(),
                self.multipass.as_str(),
                self.encode_device.as_str(),
            ),
        )
    }
}

/// What the transcode form holds: the source (when it names a file or folder),
/// the output, the video fields and the run choices.
pub struct TranscodeSettings {
    pub input: Option<String>,
    pub directory: bool,
    pub output: String,
    pub video: VideoInputs,
    pub encode: bool,
    pub rate: String,
    pub quality: String,
    pub bitrate: String,
    pub container: String,
    pub overwrite: bool,
    pub vmaf: String,
    pub n_subsample: String,
}

/// What a form asks to run: the request, whether a folder is walked, and how
/// VMAF scores it.
pub struct RunRequest {
    pub request: TranscodeRequest,
    pub recursive: bool,
    pub vmaf: Option<VmafMode>,
}

/// The rate a form selects once its fields parse.
pub open spec fn chosen_rate(label: Seq<char>, quality: Seq<char>, bitrate: Seq<char>) -> Option<RateControl> {
    rate_choice_of(label, quality, bitrate)->0->Ok_0
}

/// Why the encoding a form selects is refused, if it is.
pub open spec fn encoding_refusal(v: VideoInputs, rate: Option<RateControl>) -> Option<Seq<char>> {
    quality_error(with_rate(form_video(v.encoder@, v.preset@, v.multipass@), rate))
}

impl TranscodeSettings {
    /// Whether every choice field holds one of the form's own choices.
    pub open spec fn ready(&self) -> bool {
        &&& known_decoder(self.video.decoder@)
        &&& container_of_label(self.container@) is Some
        &&& vmaf_choice_of(self.vmaf@, self.n_subsample@) is Some
        &&& self.encode ==> self.video.ready() && rate_choice_of(
            self.rate@,
            self.quality@,
            self.bitrate@,
        ) is Some
    }

    /// Why the form cannot run, in the order the fields are checked; `None` when it can.
    pub open spec fn refusal(&self) -> Option<Seq<char>> {
        let rate = rate_choice_of(self.rate@, self.quality@, self.bitrate@)->0;
        if self.input is None {
            Some("Select an input file or folder"@)
        } else if trim(self.output@).len() == 0 {
            Some("Choose an output file or folder"@)
        } else if self.encode && rate is Err {
            Some(rate->Err_0)
        } else if self.encode && encoding_refusal(self.video, rate->Ok_0) is Some {
            encoding_refusal(self.video, rate->Ok_0)
        } else if vmaf_choice_of(self.vmaf@, self.n_subsample@)->0 is Err {
            Some(vmaf_choice_of(self.vmaf@, self.n_subsample@)->0->Err_0)
        } else {
            None
        }
    }

    /// Whether the output field holds something besides blanks.
    pub fn has_output(&self) -> (r: bool)
        ensures
            r == (trim(self.output@).len() > 0),
    {
        trim_chars(chars_of(self.output.as_str()).as_slice()).len() > 0
    }

    /// Whether `run` is the run the form asks for once its fields pass.
    pub open spec fn asks_for(&self, run: RunRequest) -> bool {
        let q = run.request;
        &&& q.input == self.input->0
        &&& q.output@ == trim(self.output@)
        &&& decoding_choice(self.video.decoder@, self.video.decode_device@, q.decoding)
        &&& q.container == container_of_label(self.container@)->0
        &&& q.overwrite == self.overwrite
        &&& (self.encode ==> (q.video matches VideoAction::Encode(e) && self.video.chooses(
            with_rate(e, None),
        ) && e == with_rate(e, chosen_rate(self.rate@, self.quality@, self.bitrate@))))
        &&& (!self.encode ==> q.video is Copy)
        &&& run.recursive == self.directory
        &&& run.vmaf == vmaf_choice_of(self.vmaf@, self.n_subsample@)->0->Ok_0
    }

    /// The run the form asks for, or why it cannot run.
    pub fn build(&self) -> (r: Result<RunRequest, String>)
        requires
            self.ready(),
        ensures
            self.refusal() matches Some(m) ==> r matches Err(x) && x@ == m,
            self.refusal() is None ==> (r matches Ok(run) && self.asks_for(run)),
    {
        let input = match &self.input {
            Some(i) => i.clone(),
            None => return Err(String::from_str("Select an input file or folder")),
        };
        let output = trim_chars(chars_of(self.output.as_str()).as_slice());
        if output.len() == 0 {
            return Err(String::from_str("Choose an output file or folder"));
        }
        let decoding_choice = decoding(self.video.decoder.as_str(), self.video.decode_device.as_str());
        let video = if self.encode {
            let (_, mut e) = self.video.build();
            let rate = match rate_choice(self.rate.as_str(), self.quality.as_str(), self.bitrate.as_str()) {
                Ok(v) => v,
                Err(m) => return Err(m),
            };
            proof {
                assert(with_rate(with_rate(e, None), rate) == with_rate(e, rate));
            }
            e.set_rate(rate);
            VideoAction::Encode(e)
        } else {
            VideoAction::Copy
        };
        let video = match validate_action(video) {
            Ok(v) => v,
            Err(m) => return Err(m),
        };
        let mut request = TranscodeRequest::new(input, string_of(output.as_slice())).with_decoding(
            decoding_choice,
        ).with_video(video).with_overwrite(self.overwrite);
        if let Some(c) = container(self.container.as_str()) {
            request = request.with_container(c);
        }
        let vmaf = match vmaf_choice(self.vmaf.as_str(), self.n_subsample.as_str()) {
            Ok(v) => v,
            Err(m) => return Err(m),
        };
        Ok(RunRequest { request, recursive: self.directory, vmaf })
    }
}

/// What the prediction form holds: the source (when it names a file or
/// folder), the video fields, the rate and the container.
pub struct PredictSettings {
    pub input: Option<String>,
    pub directory: bool,
    pub video: VideoInputs,
    pub rate: String,
    pub quality: String,
    pub bitrate: String,
    pub container: String,
}

impl PredictSettings {
    /// Whether every choice field holds one of the form's own choices.
    pub open spec fn ready(&self) -> bool {
        &&& self.video.ready()
        &&& rate_choice_of(self.rate@, self.quality@, self.bitrate@) is Some
        &&& container_of_label(self.container@) is Some
    }

    /// Why the form cannot run, in the order the fields are checked; `None` when it can.
    pub open spec fn refusal(&self) -> Option<Seq<char>> {
        let rate = rate_choice_of(self.rate@, self.quality@, self.bitrate@)->0;
        if self.input is None {
            Some("Select a video file or folder"@)
        } else if rate is Err {
            Some(rate->Err_0)
        } else {
            encoding_refusal(self.video, rate->Ok_0)
        }
    }

    /// Whether `run` is the prediction the form asks for once its fields pass.
    pub open spec fn asks_for(&self, run: RunRequest) -> bool {
        let q = run.request;
        &&& q.input == self.input->0
        &&& q.output@ == Seq::<char>::empty()
        &&& decoding_choice(self.video.decoder@, self.video.decode_device@, q.decoding)
        &&& q.container == container_of_label(self.container@)->0
        &&& !q.overwrite
        &&& q.video matches VideoAction::Encode(e) && self.video.chooses(with_rate(e, None))
            && e == with_rate(e, chosen_rate(self.rate@, self.quality@, self.bitrate@))
        &&& run.recursive == self.directory
        &&& run.vmaf is None
    }

    /// The prediction the form asks for, or why it cannot run. The request has
    /// no output: a prediction writes none.
    pub fn build(&self) -> (r: Result<RunRequest, String>)
        requires
            self.ready(),
        ensures
            self.refusal() matches Some(m) ==> r matches Err(x) && x@ == m,
            self.refusal() is None ==> (r matches Ok(run) && self.asks_for(run)),
    {
        let input = match &self.input {
            Some(i) => i.clone(),
            None => return Err(String::from_str("Select a video file or folder")),
        };
        let (decoding_choice, mut e) = self.video.build();
        let rate = match rate_choice(self.rate.as_str(), self.quality.as_str(), self.bitrate.as_str()) {
            Ok(v) => v,
            Err(m) => return Err(m),
        };
        proof {
            assert(with_rate(with_rate(e, None), rate) == with_rate(e, rate));
        }
        e.set_rate(rate);
        let e = match validate_encoding(e) {
            Ok(v) => v,
            Err(m) => return Err(m),
        };
        let mut request = TranscodeRequest::new(input, String::new()).with_decoding(decoding_choice).with_video(
            VideoAction::Encode(e),
        );
        if let Some(c) = container(self.container.as_str()) {
            request = request.with_container(c);
        }
        Ok(RunRequest { request, recursive: self.directory, vmaf: None })
    }
}

} // verus!
