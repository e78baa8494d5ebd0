use audio_2_dmx::selection::{
    decode_key, device_key, parse_args, resolve_device_key, DeviceChoice, DeviceSelectionMode,
    SelectionError,
};

fn args(list: &[&str]) -> Vec<String> {
    list.iter().map(|s| s.to_string()).collect()
}

#[test]
fn device_key_digits_then_letters() {
    assert_eq!(device_key(0), '0');
    assert_eq!(device_key(9), '9');
    assert_eq!(device_key(10), 'a');
    assert_eq!(device_key(35), 'z');
    // past 'z' the keys run on through the byte values
    assert_eq!(device_key(36), '{');
}

#[test]
fn decode_key_reads_first_character() {
    assert_eq!(decode_key("0"), Some(0));
    assert_eq!(decode_key("7"), Some(7));
    assert_eq!(decode_key("a"), Some(10));
    assert_eq!(decode_key("z"), Some(35));
    assert_eq!(decode_key("b7"), Some(11));
    assert_eq!(decode_key(""), None);
    assert_eq!(decode_key("A"), None);
    assert_eq!(decode_key("-"), None);
    assert_eq!(decode_key("é"), None);
}

#[test]
fn shown_keys_read_back() {
    for i in 0..36usize {
        let key = device_key(i).to_string();
        assert_eq!(decode_key(&key), Some(i));
    }
    assert_eq!(decode_key(&device_key(36).to_string()), None);
}

#[test]
fn parse_args_modes() {
    assert_eq!(parse_args(&args(&["prog"])), DeviceSelectionMode::DefaultInput);
    assert_eq!(parse_args(&args(&["prog", "-i"])), DeviceSelectionMode::DefaultInput);
    assert_eq!(parse_args(&args(&["prog", "-o"])), DeviceSelectionMode::DefaultOutput);
    assert_eq!(parse_args(&args(&["prog", "-c"])), DeviceSelectionMode::ChooseInteractive);
    assert_eq!(parse_args(&args(&["prog", "-o", "-c"])), DeviceSelectionMode::ChooseInteractive);
    assert_eq!(parse_args(&args(&["prog", "-co"])), DeviceSelectionMode::DefaultInput);
    assert_eq!(parse_args(&args(&[])), DeviceSelectionMode::DefaultInput);
}

#[test]
fn resolve_device_key_inputs_then_outputs() {
    assert_eq!(resolve_device_key("0", 2, 3), Ok(DeviceChoice::Input(0)));
    assert_eq!(resolve_device_key("1", 2, 3), Ok(DeviceChoice::Input(1)));
    assert_eq!(resolve_device_key("2", 2, 3), Ok(DeviceChoice::Output(0)));
    assert_eq!(resolve_device_key("4", 2, 3), Ok(DeviceChoice::Output(2)));
    assert_eq!(resolve_device_key("5", 2, 3), Err(SelectionError::OutOfRange));
    assert_eq!(resolve_device_key("?", 2, 3), Err(SelectionError::InvalidKey));
    assert_eq!(resolve_device_key("", 2, 3), Err(SelectionError::InvalidKey));
    assert_eq!(resolve_device_key("c", 4, 9), Ok(DeviceChoice::Output(8)));
}
