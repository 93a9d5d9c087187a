use zapf::io::{
    classify, detect_magic, judge_probe, Io, Magic, Verdict, M2015_MAX, M2015_MIN,
    M2021_MAX, M2021_MIN, MAGIC_MAX, MAGIC_MIN,
};
use zapf::proto::Protocol;
use zapf::{Error, IoFailure, IoKind, PlcFailure};

/// A backend whose memory holds a value at some of its probe offsets.
struct Mock {
    values: Vec<(usize, f32)>,
    probes: Vec<usize>,
    connects: usize,
    refuse: bool,
    base: usize,
}

impl Mock {
    fn with(values: &[(usize, f32)]) -> Mock {
        Mock { values: values.to_vec(), probes: vec![], connects: 0, refuse: false, base: 0 }
    }
}

fn timeout() -> Error {
    Error::IO(IoFailure { kind: IoKind::TimedOut, detail: "no answer".to_string() })
}

impl Protocol for Mock {
    fn connect(&mut self) -> Result<(), Error> {
        self.connects += 1;
        if self.refuse {
            Err(timeout())
        } else {
            Ok(())
        }
    }

    fn disconnect(&mut self) {}

    fn read_into(&mut self, addr: usize, data: &mut [u8]) -> Result<(), Error> {
        self.probes.push(addr);
        for (at, value) in &self.values {
            if *at == self.base + addr && data.len() == 4 {
                data.copy_from_slice(&value.to_le_bytes());
                return Ok(());
            }
        }
        Err(timeout())
    }

    fn write(&mut self, _addr: usize, _data: &[u8]) -> Result<(), Error> {
        Ok(())
    }

    fn get_offsets() -> &'static [usize] {
        &[0, 0x6000, 0x8000]
    }

    fn set_offset(&mut self, offset: usize) {
        self.base = offset;
    }
}

/// The judgement on a number, made with the number itself.
fn judge(value: f32) -> Verdict {
    if value >= 2015. && value <= 2045. {
        if value >= 2015.01 && value <= 2015.03 {
            return Verdict::Found(Magic::M2015_02);
        }
        if value >= 2021.08 && value <= 2021.10 {
            return Verdict::Found(Magic::M2021_09);
        }
        return Verdict::Unsupported;
    }
    Verdict::Skip
}

#[test]
fn bounds_are_the_bit_patterns_of_the_numbers() {
    assert_eq!(MAGIC_MIN, 2015f32.to_bits());
    assert_eq!(MAGIC_MAX, 2045f32.to_bits());
    assert_eq!(M2015_MIN, 2015.01f32.to_bits());
    assert_eq!(M2015_MAX, 2015.03f32.to_bits());
    assert_eq!(M2021_MIN, 2021.08f32.to_bits());
    assert_eq!(M2021_MAX, 2021.10f32.to_bits());
}

#[test]
fn signatures_are_classified() {
    assert_eq!(classify(2015.02f32.to_bits()), Verdict::Found(Magic::M2015_02));
    assert_eq!(classify(2021.09f32.to_bits()), Verdict::Found(Magic::M2021_09));
    assert_eq!(classify(2030.0f32.to_bits()), Verdict::Unsupported);
    assert_eq!(classify(2015.0f32.to_bits()), Verdict::Unsupported);
    assert_eq!(classify(2045.0f32.to_bits()), Verdict::Unsupported);
    assert_eq!(classify(2014.99f32.to_bits()), Verdict::Skip);
    assert_eq!(classify(2045.01f32.to_bits()), Verdict::Skip);
    assert_eq!(classify(0), Verdict::Skip);
    assert_eq!(classify((-2021.09f32).to_bits()), Verdict::Skip);
    assert_eq!(classify(f32::NAN.to_bits()), Verdict::Skip);
    assert_eq!(classify(f32::INFINITY.to_bits()), Verdict::Skip);
    assert_eq!(classify(u32::MAX), Verdict::Skip);
}

#[test]
fn range_edges_are_exact() {
    for (lo, hi, inside) in [
        (M2015_MIN, M2015_MAX, Verdict::Found(Magic::M2015_02)),
        (M2021_MIN, M2021_MAX, Verdict::Found(Magic::M2021_09)),
    ] {
        assert_eq!(classify(lo), inside);
        assert_eq!(classify(hi), inside);
        assert_eq!(classify(lo - 1), Verdict::Unsupported);
        assert_eq!(classify(hi + 1), Verdict::Unsupported);
    }
    assert_eq!(classify(MAGIC_MIN - 1), Verdict::Skip);
    assert_eq!(classify(MAGIC_MAX + 1), Verdict::Skip);
}

#[test]
fn bit_patterns_judge_as_the_numbers_do() {
    let mut bits = MAGIC_MIN - 5000;
    while bits <= MAGIC_MAX + 5000 {
        assert_eq!(classify(bits), judge(f32::from_bits(bits)), "{:#x}", bits);
        bits += 1;
    }
    let mut sample: u32 = 0;
    loop {
        assert_eq!(classify(sample), judge(f32::from_bits(sample)), "{:#x}", sample);
        match sample.checked_add(0x0001_0001) {
            Some(next) => sample = next,
            None => break,
        }
    }
}

#[test]
fn bytes_are_read_least_significant_first() {
    assert_eq!(judge_probe(true, &[0xE1, 0xA2, 0xFC, 0x44]), Some(Ok(Magic::M2021_09)));
    assert_eq!(judge_probe(true, &[0xA4, 0xE0, 0xFB, 0x44]), Some(Ok(Magic::M2015_02)));
    assert_eq!(judge_probe(true, &[0x44, 0xFC, 0xA2, 0xE1]), None);
    assert_eq!(judge_probe(true, &[0, 0, 0, 0]), None);
}

#[test]
fn one_probe_decides_or_passes() {
    assert_eq!(judge_probe(true, &2021.09f32.to_le_bytes()), Some(Ok(Magic::M2021_09)));
    assert_eq!(judge_probe(true, &2015.02f32.to_le_bytes()), Some(Ok(Magic::M2015_02)));
    assert_eq!(
        judge_probe(true, &2030.0f32.to_le_bytes()),
        Some(Err(Error::PLC(PlcFailure::UnsupportedMagic(0x44FD_C000))))
    );
    assert_eq!(judge_probe(true, &1.0f32.to_le_bytes()), None);
    assert_eq!(judge_probe(false, &2021.09f32.to_le_bytes()), None);
    assert_eq!(judge_probe(false, &[0; 4]), None);
}

#[test]
fn signature_at_second_offset_is_found() {
    let mut mock = Mock::with(&[(0x6000, 2021.09)]);
    assert_eq!(detect_magic(&mut mock), Ok(Magic::M2021_09));
    assert_eq!(mock.probes, vec![0, 0x6000]);
}

#[test]
fn signature_behind_a_foreign_value_is_found() {
    let mut mock = Mock::with(&[(0, 1.5), (0x6000, 3000.0), (0x8000, 2015.02)]);
    assert_eq!(detect_magic(&mut mock), Ok(Magic::M2015_02));
    assert_eq!(mock.probes, vec![0, 0x6000, 0x8000]);
}

#[test]
fn unsupported_generation_ends_the_detection() {
    let mut mock = Mock::with(&[(0, 2030.0), (0x6000, 2021.09)]);
    assert_eq!(
        detect_magic(&mut mock),
        Err(Error::PLC(PlcFailure::UnsupportedMagic(2030.0f32.to_bits())))
    );
    assert_eq!(mock.probes, vec![0]);
}

#[test]
fn first_match_wins() {
    let mut mock = Mock::with(&[(0, 2015.02), (0x6000, 2021.09)]);
    assert_eq!(detect_magic(&mut mock), Ok(Magic::M2015_02));
    assert_eq!(mock.probes, vec![0]);
}

#[test]
fn no_answer_at_any_offset_is_not_found() {
    let mut mock = Mock::with(&[]);
    assert_eq!(detect_magic(&mut mock), Err(Error::PLC(PlcFailure::NoMagic)));
    assert_eq!(mock.probes, vec![0, 0x6000, 0x8000]);
}

#[test]
fn foreign_values_everywhere_are_not_found() {
    let mut mock = Mock::with(&[(0, 0.0), (0x6000, -2021.09), (0x8000, f32::NAN)]);
    assert_eq!(detect_magic(&mut mock), Err(Error::PLC(PlcFailure::NoMagic)));
    assert_eq!(mock.probes, vec![0, 0x6000, 0x8000]);
}

#[test]
fn io_connects_and_detects() {
    let io = Io::new(Mock::with(&[(0x8000, 2021.09)])).ok().unwrap();
    assert_eq!(io.magic(), Magic::M2021_09);
}

#[test]
fn io_gives_up_where_the_backend_does_not_connect() {
    let mut mock = Mock::with(&[(0, 2021.09)]);
    mock.refuse = true;
    match Io::new(mock) {
        Err(e) => assert_eq!(e, timeout()),
        Ok(_) => panic!("connected"),
    }
}

#[test]
fn io_passes_on_the_detection_error() {
    match Io::new(Mock::with(&[(0, 2040.0)])) {
        Err(e) => assert_eq!(e, Error::PLC(PlcFailure::UnsupportedMagic(2040.0f32.to_bits()))),
        Ok(_) => panic!("detected"),
    }
}

#[test]
fn default_methods_compose_the_required_ones() {
    let mut mock = Mock::with(&[(4, 2021.09)]);
    assert_eq!(mock.reconnect(), Ok(()));
    assert_eq!(mock.connects, 1);
    assert_eq!(mock.read(4, 4), Ok(2021.09f32.to_le_bytes().to_vec()));
    assert_eq!(mock.read(8, 4), Err(timeout()));
    mock.set_offset(4);
    assert_eq!(mock.read(0, 4), Ok(vec![0xE1, 0xA2, 0xFC, 0x44]));
}
