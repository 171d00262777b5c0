use lds::audio_capture::{choose_device, choose_format, AudioCapture, DeviceChoice, InputFormat};
use lds::vad::{Probability, Vad};
use lds::wav::encode;
use lds::whisper_provider::{assemble_transcript, transcribe_options};

fn names(list: &[&str]) -> Vec<Option<String>> {
    list.iter().map(|n| Some(n.to_string())).collect()
}

#[test]
fn shared_device_is_preferred() {
    let list = names(&["hw:0", "pipewire", "pipewire"]);
    assert_eq!(choose_device(&list, "", true), Ok(DeviceChoice::Listed(1)));
    assert_eq!(choose_device(&list, "hw:0", true), Ok(DeviceChoice::Listed(0)));
}

#[test]
fn default_device_is_fallen_back_on() {
    let list = vec![None, Some("hw:0".to_string())];
    assert_eq!(choose_device(&list, "", true), Ok(DeviceChoice::Default));
    assert_eq!(choose_device(&list, "usb", true), Ok(DeviceChoice::Default));
    assert_eq!(choose_device(&Vec::new(), "usb", true), Ok(DeviceChoice::Default));
}

#[test]
fn no_device_is_an_error() {
    assert_eq!(
        choose_device(&Vec::new(), "", false),
        Err("no audio input device available".to_string())
    );
    assert_eq!(
        choose_device(&names(&["hw:0"]), "usb", false),
        Err("device 'usb' not found".to_string())
    );
}

#[test]
fn formats_are_chosen() {
    let good = InputFormat { channels: 1, min_rate: 16000, max_rate: 16000, is_f32: true };
    let stereo = InputFormat { channels: 2, ..good };
    let low = InputFormat { min_rate: 8000, max_rate: 15999, ..good };
    let high = InputFormat { min_rate: 16001, max_rate: 48000, ..good };
    let whole = InputFormat { is_f32: false, ..good };
    assert_eq!(choose_format(&vec![stereo, low, high, whole, good, good]), Some(4));
    assert_eq!(choose_format(&vec![stereo, low, high, whole]), None);
    assert_eq!(choose_format(&Vec::new()), None);
}

#[test]
fn recording_gathers_samples() {
    let mut capture = AudioCapture::<f32>::new();
    capture.on_data(&[9.0]);
    assert!(!capture.is_recording());
    assert_eq!(capture.buffer_len(), 0);
    capture.start();
    assert!(capture.is_recording());
    capture.on_data(&[0.5, 1.0]);
    capture.on_data(&[]);
    capture.on_data(&[-1.0]);
    assert_eq!(capture.buffer_len(), 3);
    assert_eq!(capture.drain_buffer(), vec![0.5, 1.0, -1.0]);
    assert!(capture.is_recording());
    capture.on_data(&[0.25]);
    assert_eq!(capture.stop(), vec![0.25]);
    assert!(!capture.is_recording());
    capture.on_data(&[3.0]);
    assert_eq!(capture.stop(), Vec::<f32>::new());
}

#[test]
fn a_start_forgets_the_samples_before_it() {
    let mut capture = AudioCapture::<i32>::new();
    capture.start();
    capture.on_data(&[1, 2]);
    capture.start();
    capture.on_data(&[3]);
    assert_eq!(capture.stop(), vec![3]);
}

#[test]
fn wav_files_hold_the_samples() {
    let file = encode(&[0, 1, -1, i16::MIN, i16::MAX]).unwrap();
    assert_eq!(&file[0..4], b"RIFF");
    assert_eq!(&file[4..8], &46u32.to_le_bytes());
    assert_eq!(&file[8..16], b"WAVEfmt ");
    assert_eq!(&file[16..20], &16u32.to_le_bytes());
    assert_eq!(&file[20..22], &1u16.to_le_bytes());
    assert_eq!(&file[22..24], &1u16.to_le_bytes());
    assert_eq!(&file[24..28], &16000u32.to_le_bytes());
    assert_eq!(&file[28..32], &32000u32.to_le_bytes());
    assert_eq!(&file[32..34], &2u16.to_le_bytes());
    assert_eq!(&file[34..36], &16u16.to_le_bytes());
    assert_eq!(&file[36..40], b"data");
    assert_eq!(&file[40..44], &10u32.to_le_bytes());
    assert_eq!(&file[44..], &[0, 0, 1, 0, 0xff, 0xff, 0, 0x80, 0xff, 0x7f]);
}

#[test]
fn no_wav_file_without_samples() {
    assert_eq!(encode(&[]), None);
}

fn detect(probabilities: &[f32], threshold: f32) -> (bool, f32) {
    let vad = Vad::new(Probability { bits: threshold.to_bits() });
    let list: Vec<Probability> =
        probabilities.iter().map(|p| Probability { bits: p.to_bits() }).collect();
    let result = vad.detect(Some(&list));
    (result.has_speech, f32::from_bits(result.probability.bits))
}

#[test]
fn speech_is_told_by_the_greatest_probability() {
    assert_eq!(detect(&[0.1, 0.7, 0.3], 0.5), (true, 0.7));
    assert_eq!(detect(&[0.1, 0.4], 0.5), (false, 0.4));
    assert_eq!(detect(&[0.5], 0.5), (true, 0.5));
    assert_eq!(detect(&[0.4], 0.25), (true, 0.4));
    assert_eq!(detect(&[], 0.5), (false, 0.0));
}

#[test]
fn odd_numbers_count_as_floats_compare() {
    let odd = [0.0, -0.0, -1.0, 1.0, f32::NAN, f32::INFINITY, f32::NEG_INFINITY, 0.3, 1e-40];
    for a in odd {
        for b in odd {
            for threshold in odd {
                let max = [a, b].iter().copied().fold(0.0f32, f32::max);
                let (has_speech, probability) = detect(&[a, b], threshold);
                assert_eq!(has_speech, max >= threshold, "{a} {b} {threshold}");
                assert_eq!(probability, max, "{a} {b}");
            }
        }
    }
}

#[test]
fn a_failed_model_hears_silence() {
    let result = Vad::new(Probability { bits: 0 }).detect(None);
    assert!(!result.has_speech);
    assert_eq!(result.probability.bits, 0);
}

#[test]
fn options_of_a_transcription() {
    let batch = transcribe_options("", "", false);
    assert_eq!(batch.language, None);
    assert_eq!(batch.initial_prompt, None);
    assert!(!batch.single_segment && !batch.split_on_word);
    assert!(!batch.print_progress && !batch.print_timestamps && !batch.print_special);
    let streaming = transcribe_options("en", "names", true);
    assert_eq!(streaming.language, Some("en".to_string()));
    assert_eq!(streaming.initial_prompt, Some("names".to_string()));
    assert!(streaming.single_segment && streaming.split_on_word);
}

#[test]
fn transcripts_are_assembled() {
    let segments = vec![
        Some(" Hello".to_string()),
        None,
        Some("world. ".to_string()),
        Some(String::new()),
    ];
    assert_eq!(assemble_transcript(&segments), "Hello world.");
    assert_eq!(assemble_transcript(&Vec::new()), "");
    assert_eq!(assemble_transcript(&vec![None]), "");
}
