//! Recording: which device and format to record with, and the samples that a recording gathers.

use vstd::prelude::*;

use crate::text::same_text;

verus! {

/// Samples per second of the audio that is recorded and transcribed.
pub const SAMPLE_RATE: u32 = 16000;

/// The device that shares the microphone with other programs.
pub const SHARED_DEVICE: &'static str = "pipewire";

/// The input device to record with.
#[derive(Debug, PartialEq, Eq)]
pub enum DeviceChoice {
    /// The listed device with this index.
    Listed(usize),
    /// The host's default input device.
    Default,
}

/// The name of the device to look for: the shared one where none is asked for.
pub open spec fn wanted_name(device_name: Seq<char>) -> Seq<char> {
    if device_name.len() == 0 {
        SHARED_DEVICE@
    } else {
        device_name
    }
}

/// The device at `i` of a list has the name `name`.
pub open spec fn is_named(names: Seq<Option<String>>, i: int, name: Seq<char>) -> bool {
    match names[i] {
        Some(own) => own@ == name,
        None => false,
    }
}

/// The device at `i` is the first of a list that has the name `name`.
pub open spec fn is_first_named(names: Seq<Option<String>>, i: int, name: Seq<char>) -> bool {
    &&& 0 <= i < names.len()
    &&& is_named(names, i, name)
    &&& forall|j: int| 0 <= j < i ==> !#[trigger] is_named(names, j, name)
}

/// Why there is no device to record with.
pub open spec fn no_device(device_name: Seq<char>) -> Seq<char> {
    if device_name.len() == 0 {
        "no audio input device available"@
    } else {
        "device '"@ + device_name + "' not found"@
    }
}

/// Chooses the input device: the first one with the wanted name, else the default one. A device
/// that hides its name has none; a host that cannot list its devices has an empty list.
pub fn choose_device(
    names: &Vec<Option<String>>,
    device_name: &str,
    has_default: bool,
) -> (choice: Result<DeviceChoice, String>)
    ensures
        match choice {
            Ok(DeviceChoice::Listed(i)) => is_first_named(
                names@,
                i as int,
                wanted_name(device_name@),
            ),
            Ok(DeviceChoice::Default) => has_default && forall|i: int|
                0 <= i < names@.len() ==> !#[trigger] is_named(
                    names@,
                    i,
                    wanted_name(device_name@),
                ),
            Err(reason) => {
                &&& !has_default
                &&& forall|i: int|
                    0 <= i < names@.len() ==> !#[trigger] is_named(
                        names@,
                        i,
                        wanted_name(device_name@),
                    )
                &&& reason@ == no_device(device_name@)
            },
        },
{
    let wanted: &str = if device_name.is_empty() {
        SHARED_DEVICE
    } else {
        device_name
    };
    let mut i: usize = 0;
    while i < names.len()
        invariant
            i <= names@.len(),
            wanted@ == wanted_name(device_name@),
            forall|j: int| 0 <= j < i ==> !#[trigger] is_named(names@, j, wanted@),
        decreases names@.len() - i,
    {
        if let Some(own) = &names[i] {
            if same_text(own.as_str(), wanted) {
                return Ok(DeviceChoice::Listed(i));
            }
        }
        i = i + 1;
    }
    if has_default {
        return Ok(DeviceChoice::Default);
    }
    if device_name.is_empty() {
        Err("no audio input device available".to_string())
    } else {
        let mut reason: String = "device '".to_string();
        reason.append(device_name);
        reason.append("' not found");
        Err(reason)
    }
}

/// A range of input formats that a device supports.
#[derive(Debug, Clone, Copy)]
pub struct InputFormat {
    /// The number of channels.
    pub channels: u16,
    /// The lowest sample rate.
    pub min_rate: u32,
    /// The highest sample rate.
    pub max_rate: u32,
    /// Whether samples are 32-bit floating point numbers.
    pub is_f32: bool,
}

/// Mono, at the sample rate of the recogniser, in 32-bit floating point numbers.
pub open spec fn is_usable(format: InputFormat) -> bool {
    format.channels == 1 && format.min_rate <= SAMPLE_RATE <= format.max_rate && format.is_f32
}

/// Chooses the first usable format of a device.
pub fn choose_format(formats: &Vec<InputFormat>) -> (choice: Option<usize>)
    ensures
        match choice {
            Some(i) => {
                &&& i < formats@.len()
                &&& formats@[i as int].channels == 1
                &&& formats@[i as int].is_f32
                &&& formats@[i as int].min_rate <= 16000
                &&& formats@[i as int].max_rate >= 16000
            },
            None => true,
        },
        forall|j: int|
            0 <= j < formats@.len() && (#[trigger] formats@[j]).channels == 1 && formats@[j].is_f32
                && formats@[j].min_rate <= 16000 && formats@[j].max_rate >= 16000
                ==> choice is Some && choice->0 <= j,
        match choice {
            Some(i) => i < formats@.len() && is_usable(formats@[i as int]) && forall|j: int|
                0 <= j < i ==> !is_usable(#[trigger] formats@[j]),
            None => forall|j: int| 0 <= j < formats@.len() ==> !is_usable(#[trigger] formats@[j]),
        },
{
    let mut i: usize = 0;
    while i < formats.len()
        invariant
            i <= formats@.len(),
            forall|j: int| 0 <= j < i ==> !is_usable(#[trigger] formats@[j]),
        decreases formats@.len() - i,
    {
        let format: InputFormat = formats[i];
        if format.channels == 1 && format.min_rate <= SAMPLE_RATE && format.max_rate >= SAMPLE_RATE
            && format.is_f32 {
            return Some(i);
        }
        i = i + 1;
    }
    None
}

/// The samples of a recording, and whether it goes on.
pub struct AudioCapture<T> {
    buffer: Vec<T>,
    recording: bool,
}

impl<T> AudioCapture<T> {
    /// The samples gathered so far.
    pub closed spec fn samples(&self) -> Seq<T> {
        self.buffer@
    }

    /// Whether samples are gathered.
    pub closed spec fn on(&self) -> bool {
        self.recording
    }

    /// A capture that does not record yet.
    pub fn new() -> (capture: AudioCapture<T>)
        ensures
            capture.samples() == Seq::<T>::empty(),
            !capture.on(),
    {
        AudioCapture { buffer: Vec::new(), recording: false }
    }

    /// Starts recording. Clears the buffer.
    pub fn start(&mut self)
        ensures
            final(self).samples() == Seq::<T>::empty(),
            final(self).on(),
    {
        self.buffer.clear();
        self.recording = true;
    }

    /// Takes in what the device hands over: while recording, and not otherwise.
    pub fn on_data(&mut self, data: &[T]) where T: Copy
        ensures
            final(self).samples() == heard(old(self).on(), old(self).samples(), data@),
            final(self).on() == old(self).on(),
    {
        if !self.recording {
            return;
        }
        let mut i: usize = 0;
        assert(self.buffer@ + data@.take(0) =~= self.buffer@);
        while i < data.len()
            invariant
                i <= data@.len(),
                old(self).on(),
                self.recording,
                self.buffer@ == old(self).samples() + data@.take(i as int),
            decreases data@.len() - i,
        {
            self.buffer.push(data[i]);
            i = i + 1;
            assert(self.buffer@ =~= old(self).samples() + data@.take(i as int));
        }
        assert(data@.take(data@.len() as int) =~= data@);
    }

    /// Stops recording and returns the captured samples.
    pub fn stop(&mut self) -> (samples: Vec<T>)
        ensures
            samples@ == old(self).samples(),
            final(self).samples() == Seq::<T>::empty(),
            !final(self).on(),
    {
        self.recording = false;
        let mut samples: Vec<T> = Vec::new();
        samples.append(&mut self.buffer);
        assert(samples@ =~= old(self).samples());
        samples
    }

    /// Whether the capture records.
    pub fn is_recording(&self) -> (recording: bool)
        ensures
            recording == self.on(),
    {
        self.recording
    }

    /// The length of the buffer in samples.
    pub fn buffer_len(&self) -> (length: usize)
        ensures
            length == self.samples().len(),
    {
        self.buffer.len()
    }

    /// Drains accumulated samples without stopping the recording. Returns what has accumulated
    /// since the last drain.
    pub fn drain_buffer(&mut self) -> (samples: Vec<T>)
        ensures
            samples@ == old(self).samples(),
            final(self).samples() == Seq::<T>::empty(),
            final(self).on() == old(self).on(),
    {
        let mut samples: Vec<T> = Vec::new();
        samples.append(&mut self.buffer);
        assert(samples@ =~= old(self).samples());
        samples
    }
}

/// The samples of a capture after the device has handed over `data`.
pub open spec fn heard<T>(on: bool, samples: Seq<T>, data: Seq<T>) -> Seq<T> {
    if on {
        samples + data
    } else {
        samples
    }
}

/// The samples of a capture after the device has handed over some data, one piece after another.
pub open spec fn heard_all<T>(on: bool, samples: Seq<T>, pieces: Seq<Seq<T>>) -> Seq<T>
    decreases pieces.len(),
{
    if pieces.len() == 0 {
        samples
    } else {
        heard(on, heard_all(on, samples, pieces.drop_last()), pieces.last())
    }
}

/// A recording holds all that the device handed over since its start, in order; and draining it in
/// between loses nothing and doubles nothing.
pub proof fn law_recording_is_complete<T>(before: Seq<Seq<T>>, after: Seq<Seq<T>>)
    ensures
        heard_all(true, Seq::<T>::empty(), before) == before.flatten(),
        heard_all(true, Seq::<T>::empty(), before) + heard_all(true, Seq::<T>::empty(), after)
            == heard_all(true, Seq::<T>::empty(), before + after),
{
    lemma_heard_all(before);
    lemma_heard_split(Seq::<T>::empty(), before, after);
    lemma_heard_from(heard_all(true, Seq::<T>::empty(), before), after);
}

/// Nothing is gathered while the capture does not record.
pub proof fn law_silent_when_off<T>(samples: Seq<T>, pieces: Seq<Seq<T>>)
    ensures
        heard_all(false, samples, pieces) == samples,
    decreases pieces.len(),
{
    if pieces.len() > 0 {
        law_silent_when_off(samples, pieces.drop_last());
    }
}

proof fn lemma_heard_all<T>(pieces: Seq<Seq<T>>)
    ensures
        heard_all(true, Seq::<T>::empty(), pieces) == pieces.flatten(),
    decreases pieces.len(),
{
    pieces.lemma_flatten_and_flatten_alt_are_equivalent();
    if pieces.len() > 0 {
        lemma_heard_all(pieces.drop_last());
        pieces.drop_last().lemma_flatten_and_flatten_alt_are_equivalent();
    }
}

proof fn lemma_heard_split<T>(samples: Seq<T>, before: Seq<Seq<T>>, after: Seq<Seq<T>>)
    ensures
        heard_all(true, samples, before + after) == heard_all(
            true,
            heard_all(true, samples, before),
            after,
        ),
    decreases after.len(),
{
    if after.len() > 0 {
        lemma_heard_split(samples, before, after.drop_last());
        assert((before + after).drop_last() =~= before + after.drop_last());
    } else {
        assert(before + after =~= before);
    }
}

proof fn lemma_heard_from<T>(samples: Seq<T>, pieces: Seq<Seq<T>>)
    ensures
        heard_all(true, samples, pieces) == samples + heard_all(true, Seq::<T>::empty(), pieces),
    decreases pieces.len(),
{
    if pieces.len() > 0 {
        lemma_heard_from(samples, pieces.drop_last());
        let so_far = heard_all(true, Seq::<T>::empty(), pieces.drop_last());
        assert(samples + so_far + pieces.last() =~= samples + (so_far + pieces.last()));
    } else {
        assert(samples + Seq::<T>::empty() =~= samples);
    }
}

/// A format is usable if and only if it has one channel of floating-point samples and a range of
/// rates that holds 16000, both ends included.
pub proof fn law_usable_formats_hold_the_rate(format: InputFormat)
    ensures
        is_usable(format) <==> {
            &&& format.channels == 1
            &&& format.is_f32
            &&& format.min_rate <= 16000
            &&& format.max_rate >= 16000
        },
{
}

/// A wider range of rates is as usable as a narrower one within it.
pub proof fn law_wider_ranges_stay_usable(narrow: InputFormat, wide: InputFormat)
    requires
        is_usable(narrow),
        wide.channels == narrow.channels,
        wide.is_f32 == narrow.is_f32,
        wide.min_rate <= narrow.min_rate,
        wide.max_rate >= narrow.max_rate,
    ensures
        is_usable(wide),
{
}

/// The device that is looked for is the one asked for, or the shared one where none is.
pub proof fn law_device_is_looked_for_by_name(
    names: Seq<Option<String>>,
    i: int,
    device_name: Seq<char>,
)
    requires
        0 <= i < names.len(),
    ensures
        is_named(names, i, wanted_name(device_name)) <==> match names[i] {
            Some(own) => if device_name.len() > 0 {
                own@ == device_name
            } else {
                own@ == "pipewire"@
            },
            None => false,
        },
{
}

/// While it records, a capture gathers each piece that it is handed, behind what it has.
pub proof fn law_pieces_are_gathered_in_order<T>(samples: Seq<T>, a: Seq<T>, b: Seq<T>)
    ensures
        heard(true, samples, a).len() == samples.len() + a.len(),
        heard(true, samples, a).take(samples.len() as int) == samples,
        heard(true, samples, a).skip(samples.len() as int) == a,
        heard(true, heard(true, samples, a), b) == heard(true, samples, a + b),
        heard(false, samples, a) == samples,
{
    assert(heard(true, samples, a).take(samples.len() as int) =~= samples);
    assert(heard(true, samples, a).skip(samples.len() as int) =~= a);
    assert(samples + a + b =~= samples + (a + b));
}

/// Where there is no device, the reason names the one that was asked for, if one was.
pub proof fn law_missing_device_is_named(device_name: Seq<char>)
    ensures
        device_name.len() > 0 ==> no_device(device_name) == "device '"@ + device_name
            + "' not found"@,
        device_name.len() == 0 ==> no_device(device_name) == "no audio input device available"@,
{
}

/// Of several devices with one name the first is meant.
pub proof fn law_first_device_of_a_name_is_meant(
    names: Seq<Option<String>>,
    i: int,
    j: int,
    name: Seq<char>,
)
    requires
        0 <= j < names.len(),
        names[j] is Some,
        names[j]->0@ == name,
    ensures
        is_first_named(names, i, name) ==> 0 <= i <= j && names[i] is Some && names[i]->0@ == name,
        is_named(names, j, name),
        !is_first_named(names, j, name) ==> exists|k: int|
            0 <= k < j && (#[trigger] names[k]) is Some && names[k]->0@ == name,
{
    assert(is_named(names, j, name));
    if !is_first_named(names, j, name) {
        let k = choose|k: int| 0 <= k < j && #[trigger] is_named(names, k, name);
        assert(names[k] is Some && names[k]->0@ == name);
    }
}

} // verus!
