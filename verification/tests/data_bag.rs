use weld::data_bag::DataBag;

const SIZE_TOKEN: u64 = 0;
const CAPTION_TOKEN: u64 = 1;

#[derive(Debug, PartialEq)]
pub struct Size {
    width: f64,
    height: f64,
}

#[derive(Debug, PartialEq)]
pub struct Caption {
    caption: &'static str,
}

#[derive(Debug, PartialEq)]
enum BagValue {
    Size(Size),
    Caption(Caption),
}

#[test]
fn test_databag() {
    let mut bag: DataBag<BagValue> = DataBag::new();

    assert_eq!(bag.get(SIZE_TOKEN), None);
    assert_eq!(bag.get(CAPTION_TOKEN), None);

    bag.put(SIZE_TOKEN, BagValue::Size(Size { width: 3.0, height: 4.0 }));

    assert_eq!(
        *bag.get(SIZE_TOKEN).unwrap(),
        BagValue::Size(Size { width: 3.0, height: 4.0 })
    );

    bag.put(CAPTION_TOKEN, BagValue::Caption(Caption { caption: "Foo" }));

    bag.put(SIZE_TOKEN, BagValue::Size(Size { width: 7.0, height: 8.0 }));

    assert_eq!(
        *bag.get(CAPTION_TOKEN).unwrap(),
        BagValue::Caption(Caption { caption: "Foo" })
    );

    assert_eq!(
        *bag.get(SIZE_TOKEN).unwrap(),
        BagValue::Size(Size { width: 7.0, height: 8.0 })
    );
}

#[test]
fn putting_twice_keeps_the_last_value() {
    let mut bag: DataBag<u32> = DataBag::new();
    bag.put(5, 10);
    bag.put(5, 11);
    assert_eq!(bag.get(5), Some(&11));
    assert_eq!(bag.get(6), None);
}
