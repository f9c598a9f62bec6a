use cog_validator::vsi::{
    close_status, open_status, read_status, seek_status, FileAccessMode, VSIError, Whence,
};

#[test]
fn test_file_access_mode_to_c_str() {
    assert_eq!(FileAccessMode::Read.to_c_str(), "r");
    assert_eq!(FileAccessMode::ReadBinary.to_c_str(), "rb");
    assert_eq!(FileAccessMode::Write.to_c_str(), "w");
    assert_eq!(FileAccessMode::WriteBinary.to_c_str(), "wb");
}

#[test]
fn test_whence_conversion() {
    assert_eq!(0, Whence::SeekSet.into());
    assert_eq!(1, Whence::SeekCur.into());
    assert_eq!(2, Whence::SeekEnd.into());

    assert!(matches!(Whence::from(0), Whence::SeekSet));
    assert!(matches!(Whence::from(1), Whence::SeekCur));
    assert!(matches!(Whence::from(2), Whence::SeekEnd));
}

#[test]
fn remaining_access_modes_have_fopen_text() {
    assert_eq!(FileAccessMode::Append.to_c_str(), "a");
    assert_eq!(FileAccessMode::AppendBinary.to_c_str(), "ab");
    assert_eq!(FileAccessMode::ReadWrite.to_c_str(), "r+");
    assert_eq!(FileAccessMode::ReadWriteBinary.to_c_str(), "r+b");
    assert_eq!(FileAccessMode::WriteRead.to_c_str(), "w+");
    assert_eq!(FileAccessMode::WriteReadBinary.to_c_str(), "wb+");
    assert_eq!(FileAccessMode::AppendRead.to_c_str(), "a+");
    assert_eq!(FileAccessMode::AppendReadBinary.to_c_str(), "ab+");
}

#[test]
fn short_read_is_a_read_error() {
    assert_eq!(read_status(3, 4), Err(VSIError::ReadError));
    assert_eq!(read_status(8, 8), Ok(8));
}

#[test]
fn status_codes_map_to_accessor_errors() {
    assert_eq!(seek_status(0), Ok(()));
    assert_eq!(seek_status(-1), Err(VSIError::SeekError));
    assert_eq!(close_status(0), Ok(()));
    assert_eq!(close_status(1), Err(VSIError::CloseError));
    assert_eq!(open_status(true), Ok(()));
    assert_eq!(open_status(false), Err(VSIError::OpenError));
}
