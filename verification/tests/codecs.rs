use blockifier::cached::Cached;
use blockifier::primitives::Felt;
use blockifier::scale_codecs::USizeCodec;

#[test]
fn machine_word_goes_over_the_wire_in_64_bits() {
    assert_eq!(USizeCodec::from(&0usize), USizeCodec(0));
    assert_eq!(USizeCodec::from(&21000usize), USizeCodec(21000));
    assert_eq!(USizeCodec::from(&usize::MAX), USizeCodec(usize::MAX as u64));
    assert_eq!(usize::from(USizeCodec(300000)), 300000usize);
    for n in [0usize, 1, 4096, usize::MAX] {
        assert_eq!(usize::from(USizeCodec::from(&n)), n);
    }
}

struct OneSlot(Option<(u8, u8)>);

impl Cached<u8, u8> for OneSlot {
    fn cache_get(&mut self, key: &u8) -> Option<&u8> {
        match &self.0 {
            Some((k, v)) if k == key => Some(v),
            _ => None,
        }
    }

    fn cache_set(&mut self, key: u8, value: u8) {
        self.0 = Some((key, value));
    }

    fn with_size(_size: usize) -> Self {
        OneSlot(None)
    }
}

#[test]
fn cache_that_does_not_count_reports_one() {
    let mut cache = OneSlot::with_size(16);
    assert_eq!(cache.cache_size(), 1);
    assert_eq!(cache.cache_hits(), Some(1));
    assert_eq!(cache.cache_get(&1), None);
    cache.cache_set(1, 10);
    assert_eq!(cache.cache_get(&1), Some(&10));
    assert_eq!(cache.cache_size(), 1);
    assert_eq!(cache.cache_hits(), Some(1));
}

#[test]
fn field_element_from_a_small_number() {
    assert_eq!(Felt::from_u128(7), Felt { hi: 0, lo: 7 });
    assert!(Felt::from_u128(0).is_zero());
    assert!(!Felt::from_u128(1).is_zero());
    assert!(!Felt { hi: 1, lo: 0 }.is_zero());
    assert_eq!(Felt::default(), Felt::from_u128(0));
}
