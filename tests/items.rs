use skyblock_rs::{Item, ItemBytes, ItemBytesError, ItemBytesT0, Rarity};

fn item(count: Option<i8>, bytes: ItemBytes) -> Item {
    Item {
        name: "◆ Ice Rune I".to_string(),
        lore: "§8Requires level 8".to_string(),
        count,
        extra: "◆ Ice Rune I Skull Item".to_string(),
        category: "misc".to_string(),
        tier: Rarity::Uncommon,
        bytes,
    }
}

#[test]
fn count_when_listed() {
    let mut with = item(Some(10), ItemBytes::Data(String::new()));
    assert_eq!(with.count(), Some(10));
    let mut without = item(None, ItemBytes::Data(String::new()));
    assert_eq!(without.count(), None);
    assert_eq!(without.tier, Rarity::Uncommon);
}

#[test]
fn bytes_text_in_either_shape() {
    let tagged = ItemBytes::T0(ItemBytesT0::Data("aGk=".to_string()));
    assert_eq!(tagged.into_string(), "aGk=");
    assert_eq!(ItemBytes::Data("aGk=".to_string()).into_string(), "aGk=");
}

#[test]
fn bytes_decode_base64() {
    let tagged = ItemBytes::T0(ItemBytesT0::Data("aGVsbG8=".to_string()));
    assert_eq!(tagged.decode().unwrap(), b"hello".to_vec());
    let plain = ItemBytes::Data("H4sIAAAAAAAA".to_string());
    assert_eq!(plain.decode().unwrap(), vec![0x1f, 0x8b, 0x08, 0, 0, 0, 0, 0, 0]);
    assert_eq!(
        ItemBytes::Data("not base64!".to_string()).decode(),
        Err(ItemBytesError::InvalidBase64)
    );
}
