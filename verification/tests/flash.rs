use spidap::bitvec::BitvecError;
use spidap::sequence::{Sequence, Step};
use spidap::{Error, SPIFlash};

type Failure = Error<&'static str, u32, String>;

fn bits(bits: &[u8]) -> Vec<bool> {
    bits.iter().map(|b| *b != 0).collect()
}

/// Stands for an engine that hands back every bit it shifted out with
/// capture, in order.
fn loopback(sequence: &Sequence) -> Result<Vec<bool>, Failure> {
    let mut captured = Vec::new();
    for step in &sequence.steps {
        if let Step::Shift { bits, capture: true } = step {
            captured.extend_from_slice(bits);
        }
    }
    Ok(captured)
}

fn exchange_over_loopback(data: &[u8]) -> Result<Vec<u8>, Failure> {
    let spi = SPIFlash::new(());
    let sequence = spi.exchange_request(data).map_err(Error::Bitvec)?;
    spi.exchange_response(data.len(), loopback(&sequence))
}

#[test]
fn release_gives_back_the_session() {
    let spi = SPIFlash::new(String::from("probe 1"));
    assert_eq!(spi.dap(), "probe 1");
    assert_eq!(spi.release(), "probe 1");
}

#[test]
fn requests_leave_the_session_alone() {
    let spi = SPIFlash::new(42u64);
    spi.write_request(&[1, 2, 3]).unwrap();
    spi.exchange_request(&[4, 5, 6]).unwrap();
    let done: Result<(), Failure> = spi.write_response(Ok(vec![]));
    assert_eq!(done, Ok(()));
    assert_eq!(*spi.dap(), 42);
    assert_eq!(spi.release(), 42);
}

#[test]
fn write_shifts_reversed_byte_and_raises_mode_once() {
    let spi = SPIFlash::new(());
    let sequence = spi.write_request(&[0b1011_0000]).unwrap();
    let pattern = spidap::bitvec::bytes_to_bits(&[0b0000_1101], 8).unwrap();
    assert_eq!(pattern.len(), 8);
    assert_eq!(
        sequence.steps,
        vec![
            Step::Shift { bits: pattern, capture: false },
            Step::Mode { states: vec![true] },
        ]
    );
    let done: Result<(), Failure> = spi.write_response(Ok(vec![]));
    assert_eq!(done, Ok(()));
}

#[test]
fn write_of_nothing_still_raises_mode() {
    let spi = SPIFlash::new(());
    let sequence = spi.write_request(&[]).unwrap();
    assert_eq!(
        sequence.steps,
        vec![
            Step::Shift { bits: vec![], capture: false },
            Step::Mode { states: vec![true] },
        ]
    );
}

#[test]
fn exchange_shifts_with_capture_and_raises_mode_once() {
    let spi = SPIFlash::new(());
    let sequence = spi.exchange_request(&[0x9F, 0x00]).unwrap();
    assert_eq!(
        sequence.steps,
        vec![
            Step::Shift {
                bits: bits(&[1, 0, 0, 1, 1, 1, 1, 1, 0, 0, 0, 0, 0, 0, 0, 0]),
                capture: true,
            },
            Step::Mode { states: vec![true] },
        ]
    );
}

#[test]
fn every_request_has_exactly_one_mode_step_after_its_shift() {
    let spi = SPIFlash::new(());
    for n in [0usize, 1, 3, 256] {
        let data = vec![0xC3u8; n];
        for sequence in [
            spi.write_request(&data).unwrap(),
            spi.exchange_request(&data).unwrap(),
        ] {
            assert_eq!(sequence.steps.len(), 2);
            assert!(matches!(sequence.steps[0], Step::Shift { .. }));
            assert_eq!(sequence.steps[1], Step::Mode { states: vec![true] });
        }
    }
}

#[test]
fn transaction_holds_the_bits_it_was_given() {
    let sequence = Sequence::transaction(bits(&[1, 0, 1]), true);
    assert_eq!(
        sequence,
        Sequence {
            steps: vec![
                Step::Shift { bits: bits(&[1, 0, 1]), capture: true },
                Step::Mode { states: vec![true] },
            ],
        }
    );
}

#[test]
fn exchange_over_loopback_returns_a5() {
    assert_eq!(exchange_over_loopback(&[0xA5]), Ok(vec![0xA5]));
}

#[test]
fn exchange_over_loopback_returns_what_was_sent() {
    assert_eq!(exchange_over_loopback(&[]), Ok(vec![]));
    assert_eq!(exchange_over_loopback(&[0xB0]), Ok(vec![0xB0]));
    let all: Vec<u8> = (0..=255u8).collect();
    assert_eq!(all.len(), 256);
    assert_eq!(exchange_over_loopback(&all), Ok(all));
}

#[test]
fn exchange_reads_captured_bits_top_bit_first() {
    let spi = SPIFlash::new(());
    let captured: Result<Vec<bool>, Failure> =
        Ok(bits(&[1, 1, 1, 0, 1, 1, 1, 1, 0, 1, 0, 0, 0, 0, 0, 0]));
    assert_eq!(spi.exchange_response(2, captured), Ok(vec![0xEF, 0x40]));
}

#[test]
fn write_hands_on_the_engine_error() {
    let spi = SPIFlash::new(());
    assert_eq!(
        spi.write_response::<&str, u32, String>(Err(Error::DAP("unplugged"))),
        Err(Error::DAP("unplugged"))
    );
    assert_eq!(
        spi.write_response::<&str, u32, String>(Err(Error::JTAG(7))),
        Err(Error::JTAG(7))
    );
    assert_eq!(
        spi.write_response::<&str, u32, String>(Err(Error::Bitvec(BitvecError::NotEnoughBits))),
        Err(Error::Bitvec(BitvecError::NotEnoughBits))
    );
    assert_eq!(
        spi.write_response::<&str, u32, String>(Err(Error::Other(String::from("else")))),
        Err(Error::Other(String::from("else")))
    );
}

#[test]
fn exchange_hands_on_the_engine_error() {
    let spi = SPIFlash::new(());
    assert_eq!(
        spi.exchange_response::<&str, u32, String>(1, Err(Error::DAP("unplugged"))),
        Err(Error::DAP("unplugged"))
    );
    assert_eq!(
        spi.exchange_response::<&str, u32, String>(1, Err(Error::JTAG(7))),
        Err(Error::JTAG(7))
    );
    assert_eq!(
        spi.exchange_response::<&str, u32, String>(0, Err(Error::Other(String::from("else")))),
        Err(Error::Other(String::from("else")))
    );
}

#[test]
fn exchange_rejects_too_few_captured_bits() {
    let spi = SPIFlash::new(());
    let none: Result<Vec<bool>, Failure> = Ok(vec![]);
    assert_eq!(
        spi.exchange_response(1, none),
        Err(Error::Bitvec(BitvecError::NotEnoughBits))
    );
    let seven: Result<Vec<bool>, Failure> = Ok(vec![true; 7]);
    assert_eq!(
        spi.exchange_response(1, seven),
        Err(Error::Bitvec(BitvecError::NotEnoughBits))
    );
    let eight: Result<Vec<bool>, Failure> = Ok(vec![true; 8]);
    assert_eq!(
        spi.exchange_response(2, eight),
        Err(Error::Bitvec(BitvecError::NotEnoughBits))
    );
}

#[test]
fn exchange_rejects_too_many_captured_bits() {
    let spi = SPIFlash::new(());
    let nine: Result<Vec<bool>, Failure> = Ok(vec![false; 9]);
    assert_eq!(
        spi.exchange_response(1, nine),
        Err(Error::Bitvec(BitvecError::TooManyBits))
    );
    let sixteen: Result<Vec<bool>, Failure> = Ok(vec![false; 16]);
    assert_eq!(
        spi.exchange_response(1, sixteen),
        Err(Error::Bitvec(BitvecError::TooManyBits))
    );
    let one: Result<Vec<bool>, Failure> = Ok(vec![true]);
    assert_eq!(
        spi.exchange_response(0, one),
        Err(Error::Bitvec(BitvecError::TooManyBits))
    );
}

#[test]
fn exchange_takes_a_count_that_cannot_be_met() {
    let spi = SPIFlash::new(());
    let some: Result<Vec<bool>, Failure> = Ok(vec![true; 8]);
    assert_eq!(
        spi.exchange_response(usize::MAX, some),
        Err(Error::Bitvec(BitvecError::NotEnoughBits))
    );
}
