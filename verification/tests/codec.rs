use shared_tasks::error::{ErrorKind, ListError};
use shared_tasks::tasks::Task;
use shared_tasks::wire::{MAX_LABEL_LEN, MAX_RECORD_SIZE};

fn codec_task(label: &str, created: u64, done: bool, is_delete: bool, id: &str) -> Task {
    Task { label: label.to_string(), created, done, is_delete, id: id.to_string() }
}

fn codec_padded(wire: &[u8]) -> Vec<u8> {
    let mut bytes = wire.to_vec();
    bytes.resize(MAX_RECORD_SIZE, 0);
    bytes
}

#[test]
fn sizes_are_as_documented() {
    assert_eq!(MAX_RECORD_SIZE, 2048);
    assert_eq!(MAX_LABEL_LEN, 2000);
}

#[test]
fn payload_has_the_fixed_size_and_the_documented_layout() {
    let bytes = codec_task("milk", 1, false, false, "a").as_vec().unwrap();
    assert_eq!(bytes.len(), 2048);
    assert_eq!(bytes, codec_padded(&[4, b'm', b'i', b'l', b'k', 1, 0, 0, 1, b'a']));
}

#[test]
fn flags_are_written_as_one_byte_each() {
    let bytes = codec_task("x", 0, true, true, "y").as_vec().unwrap();
    assert_eq!(bytes, codec_padded(&[1, b'x', 0, 1, 1, 1, b'y']));
    let bytes = codec_task("x", 0, true, false, "y").as_vec().unwrap();
    assert_eq!(bytes, codec_padded(&[1, b'x', 0, 1, 0, 1, b'y']));
}

#[test]
fn integers_are_written_in_seven_bit_groups() {
    let bytes = codec_task("", 300, false, false, "").as_vec().unwrap();
    assert_eq!(bytes, codec_padded(&[0, 0xac, 0x02, 0, 0, 0]));
    let bytes = codec_task("", 127, false, false, "").as_vec().unwrap();
    assert_eq!(bytes, codec_padded(&[0, 127, 0, 0, 0]));
    let bytes = codec_task("", 128, false, false, "").as_vec().unwrap();
    assert_eq!(bytes, codec_padded(&[0, 0x80, 0x01, 0, 0, 0]));
    let bytes = codec_task("", u64::MAX, false, false, "").as_vec().unwrap();
    assert_eq!(
        bytes,
        codec_padded(&[0, 0xff, 0xff, 0xff, 0xff, 0xff, 0xff, 0xff, 0xff, 0xff, 0x01, 0, 0, 0])
    );
}

#[test]
fn text_is_written_with_the_length_of_its_utf8_form() {
    let bytes = codec_task("é", 0, false, false, "ß!").as_vec().unwrap();
    assert_eq!(bytes, codec_padded(&[2, 0xc3, 0xa9, 0, 0, 0, 3, 0xc3, 0x9f, b'!']));
    let label = "a".repeat(200);
    let bytes = codec_task(&label, 0, false, false, "").as_vec().unwrap();
    assert_eq!(&bytes[..2], &[0xc8, 0x01]);
    assert_eq!(&bytes[2..202], label.as_bytes());
    assert_eq!(&bytes[202..206], &[0, 0, 0, 0]);
}

#[test]
fn what_was_written_is_read_again() {
    let tasks = vec![
        codec_task("milk", 1_700_000_000, false, false, "a"),
        codec_task("", 0, true, true, ""),
        codec_task("Grüße, Welt – 世界", u64::MAX, true, false, "id/with/slashes"),
        codec_task(&"x".repeat(2000), 5, false, true, "0123456789abcdef0123456789abcdef"),
    ];
    for task in tasks {
        let bytes = task.clone().as_vec().unwrap();
        assert_eq!(bytes.len(), MAX_RECORD_SIZE);
        assert_eq!(Task::from_bytes(&bytes), Ok(task));
    }
}

#[test]
fn bytes_behind_the_task_are_not_interpreted() {
    let mut bytes = vec![4, b'm', b'i', b'l', b'k', 1, 0, 0, 1, b'a'];
    let task = codec_task("milk", 1, false, false, "a");
    assert_eq!(Task::from_bytes(&bytes), Ok(task.clone()));
    bytes.extend_from_slice(&[0xff, 0x80, 7, 7, 7]);
    assert_eq!(Task::from_bytes(&bytes), Ok(task));
}

#[test]
fn a_label_of_exactly_the_limit_is_accepted() {
    let task = codec_task(&"a".repeat(2000), 1, false, false, "a");
    let bytes = task.clone().as_vec().unwrap();
    assert_eq!(bytes.len(), 2048);
    assert_eq!(Task::from_bytes(&bytes), Ok(task));
}

#[test]
fn a_label_over_the_limit_is_refused() {
    let task = codec_task(&"a".repeat(2001), 1, false, false, "a");
    assert_eq!(task.as_vec(), Err(ListError::LabelTooLong));
    let task = codec_task(&"a".repeat(5000), 1, false, false, "a");
    assert_eq!(task.as_vec(), Err(ListError::LabelTooLong));
}

#[test]
fn the_label_is_measured_in_bytes() {
    let task = codec_task(&"é".repeat(1000), 1, false, false, "a");
    assert!(task.as_vec().is_ok());
    let task = codec_task(&"é".repeat(1001), 1, false, false, "a");
    assert_eq!(task.as_vec(), Err(ListError::LabelTooLong));
}

#[test]
fn a_task_that_does_not_fit_is_refused_and_not_cut() {
    let task = codec_task(&"a".repeat(2000), 1, false, false, &"i".repeat(100));
    assert_eq!(task.as_vec(), Err(ListError::RecordTooLarge));
    let task = codec_task("short", 1, false, false, &"i".repeat(3000));
    assert_eq!(task.as_vec(), Err(ListError::RecordTooLarge));
}

#[test]
fn the_largest_task_that_fits_fills_the_payload() {
    let task = codec_task(&"a".repeat(2000), u64::MAX, true, true, &"i".repeat(33));
    let bytes = task.clone().as_vec().unwrap();
    assert_eq!(bytes.len(), 2048);
    assert_eq!(bytes[2047], b'i');
    assert_eq!(Task::from_bytes(&bytes), Ok(task));
    let task = codec_task(&"a".repeat(2000), u64::MAX, true, true, &"i".repeat(34));
    assert_eq!(task.as_vec(), Err(ListError::RecordTooLarge));
}

#[test]
fn malformed_payloads_are_refused() {
    assert_eq!(Task::from_bytes(&[]), Err(ListError::Decode));
    assert_eq!(Task::from_bytes(&[5, b'a']), Err(ListError::Decode));
    assert_eq!(Task::from_bytes(&[1, b'a', 0, 2, 0, 0]), Err(ListError::Decode));
    assert_eq!(Task::from_bytes(&[1, b'a', 0, 0, 0]), Err(ListError::Decode));
    assert_eq!(Task::from_bytes(&[1, 0xff, 0, 0, 0, 0]), Err(ListError::Decode));
    assert_eq!(Task::from_bytes(&[0xff; 64]), Err(ListError::Decode));
}

#[test]
fn a_payload_of_zeros_is_an_empty_task() {
    let task = Task::from_bytes(&[0u8; 2048]).unwrap();
    assert_eq!(task, codec_task("", 0, false, false, ""));
}

#[test]
fn the_placeholder_stands_for_missing_content() {
    let task = Task::missing_task("abc".to_string());
    assert_eq!(task, codec_task("Missing Content", 0, false, false, "abc"));
}

#[test]
fn the_payload_agrees_with_the_tuple_that_postcard_writes() {
    let task = codec_task("milk", 77, true, false, "a");
    let expected = postcard::to_stdvec(&("milk", 77u64, true, false, "a")).unwrap();
    let bytes = task.as_vec().unwrap();
    assert_eq!(&bytes[..expected.len()], &expected[..]);
    assert!(bytes[expected.len()..].iter().all(|b| *b == 0));
}

#[test]
fn errors_fall_into_the_documented_classes() {
    assert_eq!(ListError::LabelTooLong.kind(), ErrorKind::Validation);
    assert_eq!(ListError::RecordTooLarge.kind(), ErrorKind::Validation);
    assert_eq!(ListError::TicketTooLarge.kind(), ErrorKind::Validation);
    assert_eq!(ListError::TextTooLong.kind(), ErrorKind::Validation);
    assert_eq!(ListError::UnexpectedCommand.kind(), ErrorKind::Validation);
    assert_eq!(ListError::InvalidKey.kind(), ErrorKind::Validation);
    assert_eq!(ListError::AlreadyExists.kind(), ErrorKind::Validation);
    assert_eq!(ListError::NotFound.kind(), ErrorKind::NotFound);
    assert_eq!(ListError::NameMissing.kind(), ErrorKind::NotFound);
    assert_eq!(ListError::Decode.kind(), ErrorKind::Decode);
    assert_eq!(ListError::ContentUnavailable.kind(), ErrorKind::ContentUnavailable);
}

fn codec_varint(mut n: u128) -> Vec<u8> {
    let mut out = vec![];
    while n >= 128 {
        out.push((128 + n % 128) as u8);
        n /= 128;
    }
    out.push(n as u8);
    out
}

fn codec_text_wire(s: &str) -> Vec<u8> {
    let mut out = codec_varint(s.len() as u128);
    out.extend_from_slice(s.as_bytes());
    out
}

fn codec_record_wire(task: &Task) -> Vec<u8> {
    let mut out = codec_text_wire(&task.label);
    out.extend(codec_varint(task.created as u128));
    out.push(if task.done { 1 } else { 0 });
    out.push(if task.is_delete { 1 } else { 0 });
    out.extend(codec_text_wire(&task.id));
    out
}

fn codec_samples() -> Vec<Task> {
    let mut samples = vec![];
    let times = [
        0u64,
        1,
        127,
        128,
        129,
        16383,
        16384,
        1 << 21,
        (1 << 28) - 1,
        1_700_000_000,
        1 << 35,
        1 << 42,
        (1 << 49) + 3,
        1 << 56,
        (1 << 63) - 1,
        1 << 63,
        u64::MAX,
    ];
    for (n, created) in times.iter().enumerate() {
        for label_len in [0usize, 1, 2, 126, 127, 128, 129, 300, 1999, 2000] {
            let label: String = (0..label_len).map(|i| (b'a' + ((i + n) % 26) as u8) as char).collect();
            let id = format!("id-{n}-{label_len}");
            samples.push(codec_task(&label, *created, n % 2 == 0, n % 3 == 0, &id));
        }
    }
    samples.push(codec_task("Grüße, Welt – 世界 🌍", 5, true, false, "ключ"));
    samples
}

#[test]
fn the_payload_is_the_documented_layout_for_every_sample() {
    for task in codec_samples() {
        let wire = codec_record_wire(&task);
        assert!(wire.len() <= MAX_RECORD_SIZE);
        assert_eq!(task.clone().as_vec(), Ok(codec_padded(&wire)));
        assert_eq!(Task::from_bytes(&wire), Ok(task.clone()));
        assert_eq!(Task::from_bytes(&codec_padded(&wire)), Ok(task));
    }
}

#[test]
fn a_payload_that_was_cut_short_is_refused() {
    for task in codec_samples().into_iter().step_by(7) {
        let wire = codec_record_wire(&task);
        for cut in [0, 1, wire.len() / 2, wire.len() - 1] {
            assert_eq!(Task::from_bytes(&wire[..cut]), Err(ListError::Decode));
        }
    }
}

#[test]
fn the_payload_is_full_exactly_when_the_layout_says_so() {
    for id_len in [0usize, 10, 30, 33, 34, 35, 36, 40, 48, 100] {
        for created in [0u64, 127, 128, 1_700_000_000, u64::MAX] {
            for label_len in [1990usize, 1999, 2000] {
                let task = codec_task(&"x".repeat(label_len), created, true, false, &"i".repeat(id_len));
                let fits = codec_record_wire(&task).len() <= MAX_RECORD_SIZE;
                assert_eq!(task.as_vec().is_ok(), fits);
                if id_len <= 33 {
                    assert!(fits);
                }
            }
        }
    }
}
