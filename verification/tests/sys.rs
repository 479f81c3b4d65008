use eqtune::error::EqError;
use eqtune::number::Double;
use eqtune::sys::{
    default_output_device, output_device_name, output_device_sample_rate, runtime_error,
    silent_frames, tap_failure, OutputTarget, StreamFacts,
};
use eqtune::text::Piece;

fn text(e: &EqError) -> String {
    let mut out = String::new();
    for piece in e.message() {
        match piece {
            Piece::Words(t) => out.push_str(&t),
            Piece::Figure(_, _) => panic!("unexpected figure"),
        }
    }
    out
}

fn double(x: f64) -> Double {
    Double::from_bits(x.to_bits())
}

fn facts() -> StreamFacts {
    StreamFacts {
        sample_rate: double(48_000.0),
        rate_text: "48000".into(),
        format_id: u32::from_be_bytes(*b"lpcm"),
        format_flags: 1,
        bytes_per_frame: 8,
        channels: 2,
        bits_per_channel: 32,
    }
}

#[test]
fn stream_facts_describe_format_and_interleaving() {
    let mut facts = facts();
    assert_eq!(facts.format_name(), "Float32");
    assert!(facts.interleaved());

    facts.format_flags |= 1 << 5;
    assert!(!facts.interleaved());
}

#[test]
fn stream_facts_are_described_in_one_line() {
    let mut f = facts();
    assert_eq!(f.description(), "48000 Hz, 2 ch, Float32, interleaved");
    f.format_flags = 0x20;
    assert_eq!(f.description(), "48000 Hz, 2 ch, lpcm, non-interleaved");
}

#[test]
fn formats_have_names() {
    let mut f = facts();
    f.format_flags = 0;
    assert_eq!(f.format_name(), "lpcm");
    f.format_id = u32::from_be_bytes(*b"a~!Z");
    assert_eq!(f.format_name(), "a~!Z");
    f.format_id = u32::from_be_bytes(*b"a Zb");
    assert_eq!(f.format_name(), format!("0x{:08x}", f.format_id));
    f.format_id = 0x0000_01af;
    assert_eq!(f.format_name(), "0x000001af");
    for byte in 0u8..=255 {
        f.format_id = u32::from_be_bytes([byte; 4]);
        let expected = if byte.is_ascii_graphic() {
            String::from_utf8(vec![byte; 4]).unwrap()
        } else {
            format!("0x{:08x}", f.format_id)
        };
        assert_eq!(f.format_name(), expected);
    }
}

#[test]
fn output_devices_and_rates_are_read() {
    assert_eq!(default_output_device(0), None);
    assert_eq!(default_output_device(41), Some(41));
    assert_eq!(output_device_sample_rate(double(44_100.0)), Some(double(44_100.0)));
    for bad in [0.0, -0.0, -1.0, f64::NAN, f64::INFINITY] {
        assert_eq!(output_device_sample_rate(double(bad)), None);
    }
}

#[test]
fn device_names_end_at_the_nul() {
    assert_eq!(output_device_name(true, b"Speakers\0junk"), Some("Speakers".to_string()));
    assert_eq!(output_device_name(true, "Ohrhörer ☃\0".as_bytes()), Some("Ohrhörer ☃".into()));
    assert_eq!(output_device_name(true, b"\0"), None);
    assert_eq!(output_device_name(true, b"no end"), None);
    assert_eq!(output_device_name(true, b""), None);
    assert_eq!(output_device_name(true, b"\xff\xfe\0"), None);
    assert_eq!(output_device_name(true, b"ok\0\xff"), Some("ok".to_string()));
    assert_eq!(output_device_name(false, b"Speakers\0"), None);
}

#[test]
fn tap_failures_are_told() {
    assert_eq!(
        tap_failure(b"no permission\0\0"),
        "could not start the audio tap: no permission"
    );
    assert_eq!(
        tap_failure(b"\0"),
        "could not start the audio tap: unknown Core Audio error"
    );
    assert_eq!(runtime_error(0), None);
    assert_eq!(runtime_error(1).unwrap(), "runtime output stream layout changed");
    assert_eq!(runtime_error(2).unwrap(), "runtime input stream layout changed");
    assert_eq!(runtime_error(3).unwrap(), "runtime stream buffer sizes no longer match");
    assert_eq!(runtime_error(9).unwrap(), "unknown runtime stream failure");
}

#[test]
fn a_target_is_resolved_from_what_could_be_read() {
    let rate = Some(double(48_000.0));
    let t = OutputTarget::resolve(Some(7), Some("uid".into()), None, rate, Some(facts())).unwrap();
    assert_eq!(t.name, "#7");
    assert_eq!(t.id, 7);
    assert_eq!(t.uid, "uid");
    let fail = |id, uid: Option<&str>, rate, stream| {
        text(&OutputTarget::resolve(id, uid.map(String::from), None, rate, stream).unwrap_err())
    };
    assert_eq!(fail(None, None, rate, None), "no default output device");
    assert_eq!(
        fail(Some(7), None, rate, Some(facts())),
        "could not read output device UID for #7"
    );
    assert_eq!(
        fail(Some(7), Some("u"), None, Some(facts())),
        "could not read output device sample rate for #7"
    );
    assert_eq!(
        fail(Some(7), Some("u"), rate, None),
        "could not read output stream format for #7"
    );
}

#[test]
fn silent_frames_add_up_until_sound() {
    assert_eq!(silent_frames(100, true, 512), 612);
    assert_eq!(silent_frames(100, false, 512), 0);
    assert_eq!(silent_frames(u64::MAX, true, 2), 1);
}
