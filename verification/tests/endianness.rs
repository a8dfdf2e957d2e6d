use svs_reader::base::Endianness;
use svs_reader::error::SvsError;

#[test]
fn base_test() {
    assert!(Endianness::from_bytes(&[77, 77]).is_ok_and(|e| e == Endianness::Big));
    assert!(Endianness::from_bytes(&[73, 73]).is_ok_and(|e| e == Endianness::Small));
    assert!(Endianness::from_bytes(&[0, 73]).is_err());
    assert!(Endianness::from_bytes(&[77, 77, 0]).is_err());
}

#[test]
fn marker_errors_are_unrecognized() {
    assert!(matches!(
        Endianness::from_bytes(&[]),
        Err(SvsError::UnrecognizedEndianMarker)
    ));
    assert!(matches!(
        Endianness::from_bytes(&[73]),
        Err(SvsError::UnrecognizedEndianMarker)
    ));
    assert!(matches!(
        Endianness::from_bytes(&[73, 77]),
        Err(SvsError::UnrecognizedEndianMarker)
    ));
    assert!(matches!(
        Endianness::from_bytes(&[73, 73, 73]),
        Err(SvsError::UnrecognizedEndianMarker)
    ));
}
