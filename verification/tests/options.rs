use ivm::compile::Compile;
use ivm::options::{
    InvalidHeaderCause, InvalidHeaderError, MemoryPointerLength, ProgramOptions, CCFV, DOC_HELP,
    LATER_VERSION_HELP,
};
use ivm::version_adapters::{
    get_header_size, get_program_options, try_retrieve_cfv1, Adapt, CCFV_HEADER_LEN,
    CFV1_HEADER_LEN,
};

#[test]
fn spans_and_byte_identifiers() {
    assert_eq!(MemoryPointerLength::X32b.get_span(), 4);
    assert_eq!(MemoryPointerLength::X64b.get_span(), 8);
    assert_eq!(MemoryPointerLength::X32b.get_byte_identifier(), 0);
    assert_eq!(MemoryPointerLength::X64b.get_byte_identifier(), 1);
    assert_eq!(MemoryPointerLength::from_byte_identifier(0), Some(MemoryPointerLength::X32b));
    assert_eq!(MemoryPointerLength::from_byte_identifier(1), Some(MemoryPointerLength::X64b));
    assert_eq!(MemoryPointerLength::from_byte_identifier(2), None);
    assert_eq!(MemoryPointerLength::from_byte_identifier(255), None);
}

#[test]
fn fit_writes_little_endian() {
    assert_eq!(MemoryPointerLength::X32b.fit(0), vec![0, 0, 0, 0]);
    assert_eq!(MemoryPointerLength::X32b.fit(1), vec![1, 0, 0, 0]);
    assert_eq!(MemoryPointerLength::X32b.fit(0x0102_0304), vec![4, 3, 2, 1]);
    assert_eq!(MemoryPointerLength::X32b.fit(0xffff_ffff), vec![0xff; 4]);
    assert_eq!(MemoryPointerLength::X64b.fit(258), vec![2, 1, 0, 0, 0, 0, 0, 0]);
    assert_eq!(MemoryPointerLength::X64b.fit(usize::MAX), usize::MAX.to_le_bytes().to_vec());
}

#[test]
fn fit_cuts_off_what_does_not_fit() {
    let wide: usize = 0x1_0000_0005;
    assert_eq!(MemoryPointerLength::X32b.fit(wide), vec![5, 0, 0, 0]);
}

#[test]
fn extract_reads_at_the_offset() {
    let pool = [9u8, 4, 3, 2, 1, 0, 0, 0, 0, 7, 0];
    assert_eq!(MemoryPointerLength::X32b.extract(1, &pool), 0x0102_0304);
    assert_eq!(MemoryPointerLength::X64b.extract(1, &pool), 0x0102_0304);
    assert_eq!(MemoryPointerLength::X32b.extract(6, &pool), 0x0700_0000);
    assert_eq!(MemoryPointerLength::X32b.extract(7, &pool), 0x0007_0000);
    assert_eq!(MemoryPointerLength::X64b.extract(2, &pool), 0x0700_0000_0001_0203);
}

#[test]
fn to_usize_reads_a_whole_pointer() {
    assert_eq!(MemoryPointerLength::X32b.to_usize(&[0x78, 0x56, 0x34, 0x12]), 0x1234_5678);
    assert_eq!(
        MemoryPointerLength::X64b.to_usize(&[1, 2, 3, 4, 5, 6, 7, 8]),
        0x0807_0605_0403_0201
    );
}

#[test]
fn extract_gives_back_what_fit_wrote() {
    let samples: [usize; 8] = [0, 1, 255, 256, 65_535, 65_536, 0x7fff_ffff, 0xffff_ffff];
    for n in samples {
        let bytes = MemoryPointerLength::X32b.fit(n);
        assert_eq!(bytes.len(), 4);
        assert_eq!(MemoryPointerLength::X32b.extract(0, &bytes), n);
        let bytes = MemoryPointerLength::X64b.fit(n);
        assert_eq!(bytes.len(), 8);
        assert_eq!(MemoryPointerLength::X64b.extract(0, &bytes), n);
    }
    let bytes = MemoryPointerLength::X64b.fit(usize::MAX);
    assert_eq!(MemoryPointerLength::X64b.extract(0, &bytes), usize::MAX);
}

#[test]
fn program_options_keep_their_fields() {
    let options = ProgramOptions::new(7, MemoryPointerLength::X64b);
    assert_eq!(options.cfv(), 7);
    assert_eq!(*options.ptr_len(), MemoryPointerLength::X64b);
    let default = ProgramOptions::default();
    assert_eq!(default.cfv(), CCFV);
    assert_eq!(CCFV, 1);
    assert_eq!(*default.ptr_len(), MemoryPointerLength::X32b);
}

#[test]
fn program_options_are_written_as_five_bytes() {
    let options = ProgramOptions::new(0x0102_0304, MemoryPointerLength::X64b);
    assert_eq!(options.compile(&ProgramOptions::default()), vec![4, 3, 2, 1, 1]);
    let mut dest = vec![9u8];
    ProgramOptions::default().compile_into(&mut dest, &options);
    assert_eq!(dest, vec![9, 1, 0, 0, 0, 0]);
}

#[test]
fn header_sizes() {
    assert_eq!(CFV1_HEADER_LEN, 13);
    assert_eq!(CCFV_HEADER_LEN, 13);
    assert_eq!(get_header_size(1), Some(13));
    assert_eq!(get_header_size(0), None);
    assert_eq!(get_header_size(2), None);
}

#[test]
fn short_header_is_not_fulfilled() {
    for len in 0..13 {
        let bytes = vec![0u8; len];
        let error = match try_retrieve_cfv1(&bytes) {
            Ok(_) => panic!("a header of {} bytes was read", len),
            Err(error) => error,
        };
        assert_eq!(*error.cause(), InvalidHeaderCause::FormatNotFulfilled);
        assert_eq!(error.message(), "header input too short");
        assert_eq!(
            error.to_string(),
            "the header format was not fulfilled: header input too short"
        );
    }
}

#[test]
fn unknown_pointer_width_is_not_recognized() {
    let mut bytes = vec![0u8; 13];
    bytes[4] = 2;
    let error = match get_program_options(&bytes) {
        Ok(_) => panic!("a header with pointer width 2 was read"),
        Err(error) => error,
    };
    assert_eq!(*error.cause(), InvalidHeaderCause::UnrecognizedValue);
    assert_eq!(error.message(), "unrecognized memory pointer length");
    assert_eq!(
        error.to_string(),
        "an unrecognized value was encountered: unrecognized memory pointer length"
    );
}

#[test]
fn too_short_comes_before_unknown_width() {
    let bytes = [0u8, 0, 0, 0, 9];
    match try_retrieve_cfv1(&bytes) {
        Ok(_) => panic!("a header of 5 bytes was read"),
        Err(error) => assert_eq!(*error.cause(), InvalidHeaderCause::FormatNotFulfilled),
    }
}

#[test]
fn header_is_read_whatever_follows() {
    let mut bytes = vec![1u8, 0, 0, 0, 0];
    bytes.extend_from_slice(&13u64.to_le_bytes());
    bytes.extend_from_slice(&[4, 4, 4]);
    let adapt = match try_retrieve_cfv1(&bytes) {
        Ok(adapt) => adapt,
        Err(error) => panic!("{}", error.to_string()),
    };
    assert_eq!(adapt.header_len, 13);
    assert_eq!(adapt.function_start, 13);
    assert_eq!(adapt.options.cfv(), 1);
    assert_eq!(*adapt.options.ptr_len(), MemoryPointerLength::X32b);
}

#[test]
fn version_field_is_kept_whatever_it_holds() {
    let mut bytes = vec![0xefu8, 0xbe, 0xad, 0xde, 1];
    bytes.extend_from_slice(&u64::MAX.to_le_bytes());
    let adapt = match get_program_options(&bytes) {
        Ok(adapt) => adapt,
        Err(error) => panic!("{}", error.to_string()),
    };
    assert_eq!(adapt.options.cfv(), 0xdead_beef);
    assert_eq!(adapt.function_start, u64::MAX);
    assert_eq!(*adapt.options.ptr_len(), MemoryPointerLength::X64b);
}

#[test]
fn header_round_trip_for_both_widths() {
    for width in [MemoryPointerLength::X32b, MemoryPointerLength::X64b] {
        for entry in [0u64, 13, 42, 1 << 40, u64::MAX] {
            let options = ProgramOptions::new(CCFV, width);
            let mut header = options.compile(&options);
            header.extend_from_slice(&entry.to_le_bytes());
            let adapt = match get_program_options(&header) {
                Ok(adapt) => adapt,
                Err(error) => panic!("{}", error.to_string()),
            };
            assert_eq!(adapt.header_len, 13);
            assert_eq!(adapt.function_start, entry);
            assert_eq!(adapt.options.cfv(), CCFV);
            assert_eq!(*adapt.options.ptr_len(), width);
        }
    }
}

#[test]
fn adapt_keeps_its_fields() {
    let adapt = Adapt::new(13, 99, ProgramOptions::new(3, MemoryPointerLength::X64b));
    assert_eq!(adapt.header_len, 13);
    assert_eq!(adapt.function_start, 99);
    assert_eq!(adapt.options.cfv(), 3);
}

#[test]
fn help_of_each_cause() {
    assert_eq!(
        InvalidHeaderCause::FormatNotFulfilled.get_help(),
        vec!["see [ivm_compile::options::header_format_doc] for the ivm bytecode format"]
    );
    assert_eq!(
        InvalidHeaderCause::UnrecognizedValue.get_help(),
        vec![
            "this bytecode input may have been compiled by a later version of ivmc",
            "see [ivm_compile::options::header_format_doc] for the ivm bytecode format",
        ]
    );
    assert_eq!(
        DOC_HELP,
        "see [ivm_compile::options::header_format_doc] for the ivm bytecode format"
    );
    assert_eq!(
        LATER_VERSION_HELP,
        "this bytecode input may have been compiled by a later version of ivmc"
    );
}

#[test]
fn text_of_each_cause() {
    assert_eq!(
        InvalidHeaderCause::UnrecognizedValue.to_string(),
        "an unrecognized value was encountered"
    );
    assert_eq!(
        InvalidHeaderCause::FormatNotFulfilled.to_string(),
        "the header format was not fulfilled"
    );
}

#[test]
fn header_error_keeps_cause_and_message() {
    let error = InvalidHeaderError::new(InvalidHeaderCause::UnrecognizedValue, "m".to_string());
    assert_eq!(*error.cause(), InvalidHeaderCause::UnrecognizedValue);
    assert_eq!(error.message(), "m");
    let error = InvalidHeaderError::from(InvalidHeaderCause::FormatNotFulfilled, "short");
    assert_eq!(*error.cause(), InvalidHeaderCause::FormatNotFulfilled);
    assert_eq!(error.message(), "short");
    assert_eq!(error.to_string(), "the header format was not fulfilled: short");
}
