use trident_stubs::account::FlatAccount;
use trident_stubs::bridge::deserialize_parameters;
use trident_stubs::bridge::serialize_parameters;
use trident_stubs::errors::InvokeError;

fn flat(key: u64, lamports: u64, owner: u64, data: Vec<u8>) -> FlatAccount {
    FlatAccount { key, lamports, owner, data }
}

#[test]
fn round_trip_restores_every_field() {
    let accounts = vec![
        flat(11, 500, 3, vec![1, 2, 3]),
        flat(22, 0, 4, vec![]),
        flat(33, u64::MAX, 5, vec![0xff; 40]),
    ];
    let payload = vec![9, 8, 7, 6];
    let buffer = serialize_parameters(77, &accounts, &payload);
    let (program_id, views, data) = deserialize_parameters(&buffer).unwrap();
    assert_eq!(program_id, 77);
    assert_eq!(data, payload);
    assert_eq!(views.len(), accounts.len());
    for (view, account) in views.iter().zip(accounts.iter()) {
        assert_eq!(view.key, account.key);
        assert_eq!(view.lamports, account.lamports);
        assert_eq!(view.owner, account.owner);
        assert_eq!(view.data, account.data);
    }
}

#[test]
fn round_trip_with_no_accounts() {
    let buffer = serialize_parameters(1, &vec![], &vec![]);
    let (program_id, views, data) = deserialize_parameters(&buffer).unwrap();
    assert_eq!(program_id, 1);
    assert!(views.is_empty());
    assert!(data.is_empty());
}

#[test]
fn truncated_buffer_is_rejected() {
    let buffer = serialize_parameters(77, &vec![flat(1, 2, 3, vec![4])], &vec![5]);
    let truncated: Vec<u8> = buffer[..buffer.len() - 1].to_vec();
    assert_eq!(
        deserialize_parameters(&truncated),
        Err(InvokeError::Deserialization)
    );
}

#[test]
fn trailing_bytes_are_rejected() {
    let mut buffer = serialize_parameters(77, &vec![flat(1, 2, 3, vec![4])], &vec![5]);
    buffer.push(0);
    assert_eq!(
        deserialize_parameters(&buffer),
        Err(InvokeError::Deserialization)
    );
}

#[test]
fn short_header_is_rejected() {
    assert_eq!(
        deserialize_parameters(&vec![1, 2, 3]),
        Err(InvokeError::Deserialization)
    );
}
