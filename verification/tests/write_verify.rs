use caligula::compression::CompressionFormat;
use caligula::device::Type;
use caligula::write_verify::{
    LegacyWriteVerifyError, WriteVerifyAction, WriteVerifyEvent, WriteVerifyStart,
};
use std::path::PathBuf;

#[test]
fn initial_info_is_taken_from_init_success_only() {
    let start = WriteVerifyStart { input_file_bytes: 1024 };
    assert_eq!(
        WriteVerifyEvent::InitSuccess(start).downcast_as_initial_info(),
        Ok(start)
    );
    assert_eq!(
        WriteVerifyEvent::Success.downcast_as_initial_info(),
        Err(WriteVerifyEvent::Success)
    );
    let total = WriteVerifyEvent::TotalBytes { src: 1, dest: 2 };
    assert_eq!(total.clone().downcast_as_initial_info(), Err(total));
}

#[test]
fn failure_is_taken_from_error_only() {
    assert_eq!(
        WriteVerifyEvent::Error(LegacyWriteVerifyError::EndOfOutput).downcast_as_failure(),
        Ok(LegacyWriteVerifyError::EndOfOutput)
    );
    let ev = WriteVerifyEvent::BlockSizeChanged(4096);
    assert_eq!(ev.clone().downcast_as_failure(), Err(ev));
}

#[test]
fn error_messages() {
    assert_eq!(
        LegacyWriteVerifyError::EndOfOutput.message(),
        "Unexpected end of output file. Is your output file too small?"
    );
    assert_eq!(
        LegacyWriteVerifyError::PermissionDenied.message(),
        "Permission denied while opening file"
    );
    assert_eq!(
        LegacyWriteVerifyError::VerificationFailed.message(),
        "Disk verification failed!"
    );
    assert_eq!(
        LegacyWriteVerifyError::UnexpectedTermination.message(),
        "The child process unexpectedly terminated!"
    );
    assert_eq!(
        LegacyWriteVerifyError::UnknownChildProcError("boom".to_string()).message(),
        "Unknown error occurred in child process: boom"
    );
    assert_eq!(
        LegacyWriteVerifyError::FailedToUnmount { message: "busy".to_string(), exit_code: -32 }
            .message(),
        "Failed to unmount disk (exit code -32)\nbusy"
    );
}

#[test]
fn io_errors_map_to_write_errors() {
    let denied = std::io::Error::from(std::io::ErrorKind::PermissionDenied);
    assert_eq!(LegacyWriteVerifyError::from(denied), LegacyWriteVerifyError::PermissionDenied);
    let other = std::io::Error::new(std::io::ErrorKind::Other, "disk on fire");
    assert_eq!(
        LegacyWriteVerifyError::from(other),
        LegacyWriteVerifyError::UnknownChildProcError("disk on fire".to_string())
    );
}

#[test]
fn io_parts_map_to_write_errors() {
    assert_eq!(
        LegacyWriteVerifyError::from_io_parts(true, "ignored".to_string()),
        LegacyWriteVerifyError::PermissionDenied
    );
    assert_eq!(
        LegacyWriteVerifyError::from_io_parts(false, "bad".to_string()),
        LegacyWriteVerifyError::UnknownChildProcError("bad".to_string())
    );
}

#[test]
fn write_verify_action_is_plain_data() {
    let action = WriteVerifyAction {
        dest: PathBuf::from("/dev/sdz"),
        src: PathBuf::from("image.iso.gz"),
        verify: true,
        compression: CompressionFormat::Gzip,
        target_type: Type::Disk,
        block_size: Some(4096),
    };
    assert_eq!(action.clone(), action);
}
