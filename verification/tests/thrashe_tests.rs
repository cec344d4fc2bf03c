use thrashe::cache::CacheState;
use thrashe::geometry::CacheSpec;
use thrashe::line::{CacheLine, CacheLineCompact};
use thrashe::provider::Channel;
use thrashe::thrashe::Thrashe;

#[test]
fn basic() {
    let mut channel = Channel::new();
    channel.configure(CacheSpec::spec_8kib_32bit_2way());
    let foo = Thrashe::new(42);
    let address: u64 = 4096;

    let _ = *foo.read(&mut channel, address);
    let _ = *foo.read(&mut channel, address);

    let report = channel.finish().unwrap();
    println!("{:?}", report);
    assert_eq!(report.hits, 1);
    assert_eq!(report.misses, 1);
}

#[test]
fn trashing() {
    let geometry = CacheSpec::spec_8kib_32bit_2way();
    let mut cache = CacheState::from_spec(geometry.clone());
    let array_size: u64 = 512;
    let element_size: u64 = 8;

    let a_base: u64 = 4200;
    let b_base: u64 = a_base + array_size * element_size;
    let c_base: u64 = b_base + array_size * element_size;

    for i in 0..12u64 {
        let a_addr: u64 = a_base + element_size * i;
        let b_addr: u64 = b_base + element_size * i;
        let c_addr: u64 = c_base + element_size * i;

        cache.touch_address(a_addr);
        cache.touch_address(b_addr);
        cache.touch_address(c_addr);
    }

    let report = cache.make_report();
    assert_eq!(report.access_count, 36);
    assert_eq!(report.geometry.size(), 8192);
    assert_eq!(report.hits, 0);
    assert_eq!(report.misses, 36);
}

#[test]
fn linear_access() {
    let geometry = CacheSpec::spec_8kib_32bit_2way();
    let mut cache = CacheState::from_spec(geometry.clone());
    let element_size: u64 = 8;

    let a_base: u64 = 4200;

    for i in 0..128u64 {
        let a_addr: u64 = a_base + element_size * i;
        cache.touch_address(a_addr);
    }

    let report = cache.make_report();
    assert_eq!(report.access_count, 128);
    assert_eq!(report.geometry.size(), 8192);
    assert_eq!(report.hits, 96);
    assert_eq!(report.misses, 32);
}

#[test]
fn pack_unpack() {
    let mut line = CacheLineCompact::new();
    let val = CacheLine { tag: 0xABCDEFAB, access: 0x0123456, valid: true };
    line.pack_store(val.clone());
    let returned = line.fetch_unpack();

    assert_eq!(val, returned)
}

#[test]
fn pack_unpack_invalid_line() {
    let mut line = CacheLineCompact::new();
    let val = CacheLine { tag: 7, access: 0x7FFF_FFFF, valid: false };
    line.pack_store(val.clone());
    assert_eq!(line.fetch_unpack(), val);
}

#[test]
fn hit_refresh_stores_shifted_new_counter() {
    let mut line = CacheLineCompact::new();
    line.pack_store(CacheLine { tag: 5, access: 7, valid: true });
    let mut counter: u32 = 0;
    let result = line.touch_if_matches(5, &mut counter);
    assert_eq!(result, Ok(()));
    assert_eq!(counter, 1);
    // The new counter value 1, left-shifted by one, is the refreshed
    // recency value; tag and validity are untouched.
    assert_eq!(line.fetch_unpack(), CacheLine { tag: 5, access: 2, valid: true });
}

#[test]
fn touch_if_matches_reports_occupied_and_empty() {
    let mut counter: u32 = 9;
    let mut line = CacheLineCompact::new();
    assert_eq!(line.touch_if_matches(5, &mut counter), Err(None));
    line.pack_store(CacheLine { tag: 4, access: 6, valid: true });
    assert_eq!(line.touch_if_matches(5, &mut counter), Err(Some(6)));
    assert_eq!(counter, 9);
    assert_eq!(line.fetch_unpack(), CacheLine { tag: 4, access: 6, valid: true });
}

#[test]
fn fresh_line_is_empty() {
    let line = CacheLineCompact::new();
    let unpacked = line.fetch_unpack();
    assert_eq!(unpacked, CacheLine { tag: 0, access: 0, valid: false });
}

#[test]
fn preset_geometry_values() {
    let geometry = CacheSpec::spec_8kib_32bit_2way();
    assert_eq!(geometry.block_size(), 32);
    assert_eq!(geometry.set_num(), 128);
    assert_eq!(geometry.lines_per_set(), 2);
    assert_eq!(geometry.size(), 8192);
}

#[test]
fn split_uses_block_width_mask() {
    let geometry = CacheSpec::spec_8kib_32bit_2way();
    // 4200 >> 5 == 131; 131 & 31 == 3; 4200 >> 12 == 1.
    assert_eq!(geometry.split(4200), (3, 1));
    // 8296 differs from 4200 by 4096, reaching the same set with the same
    // tag under the narrow mask.
    assert_eq!(geometry.split(8296), (3, 2));
}

#[test]
fn hit_after_hit_same_address() {
    let geometry = CacheSpec::spec_8kib_32bit_2way();
    let mut cache = CacheState::from_spec(geometry);
    for _ in 0..5 {
        cache.touch_address(4200);
    }
    let report = cache.make_report();
    assert_eq!(report.access_count, 5);
    assert_eq!(report.misses, 1);
    assert_eq!(report.hits, 4);
}

#[test]
fn channel_isolation() {
    let mut channel_a = Channel::new();
    let mut channel_b = Channel::new();
    channel_a.configure(CacheSpec::spec_8kib_32bit_2way());
    channel_b.configure(CacheSpec::spec_8kib_32bit_2way());

    channel_a.touch_address(4200);
    channel_a.touch_address(4200);
    channel_a.touch_address(8296);

    let report_a = channel_a.get_report().unwrap();
    let report_b = channel_b.get_report().unwrap();
    assert_eq!(report_a.access_count, 3);
    assert_eq!(report_b.access_count, 0);
    assert_eq!(report_b.hits, 0);
    assert_eq!(report_b.misses, 0);
}

#[test]
fn reconfigure_returns_prior_report() {
    let mut channel = Channel::new();
    let first = channel.configure(CacheSpec::spec_8kib_32bit_2way());
    assert!(first.is_none());

    channel.touch_address(4200);
    channel.touch_address(4200);
    channel.touch_address(4200);

    let second_geometry = CacheSpec::new(4, 6, 1);
    let prior = channel.configure(second_geometry.clone()).unwrap();
    assert_eq!(prior.access_count, 3);
    assert_eq!(prior.hits, 2);
    assert_eq!(prior.misses, 1);
    assert_eq!(prior.geometry, CacheSpec::spec_8kib_32bit_2way());

    let fresh = channel.get_report().unwrap();
    assert_eq!(fresh.access_count, 0);
    assert_eq!(fresh.hits, 0);
    assert_eq!(fresh.misses, 0);
    assert_eq!(fresh.geometry, second_geometry);
}

#[test]
fn unconfigured_channel() {
    let mut channel = Channel::new();
    assert!(!channel.is_configured());
    assert!(channel.get_report().is_none());
    assert!(channel.finish().is_none());

    // A touch against an unconfigured channel is a no-op.
    channel.touch_address(4200);
    assert!(channel.get_report().is_none());

    // A read through a wrapper still yields the value unchanged.
    let wrapped = Thrashe::new(99u64);
    assert_eq!(*wrapped.read(&mut channel, 4200), 99);
    assert!(channel.get_report().is_none());
}

#[test]
fn finish_empties_the_channel() {
    let mut channel = Channel::new();
    channel.configure(CacheSpec::spec_8kib_32bit_2way());
    channel.touch_address(4200);
    let report = channel.finish().unwrap();
    assert_eq!(report.access_count, 1);
    assert_eq!(report.misses, 1);
    assert!(!channel.is_configured());
    assert!(channel.finish().is_none());
}

#[test]
fn get_report_does_not_alter_state() {
    let mut channel = Channel::new();
    channel.configure(CacheSpec::spec_8kib_32bit_2way());
    channel.touch_address(4200);
    let first = channel.get_report().unwrap();
    let second = channel.get_report().unwrap();
    assert_eq!(first, second);
    assert_eq!(first.access_count, 1);
}

#[test]
fn prefetch_has_the_same_cache_effect_as_read() {
    let mut channel = Channel::new();
    channel.configure(CacheSpec::spec_8kib_32bit_2way());
    let wrapped = Thrashe::new(5i32);
    let address: u64 = 4200;
    Thrashe::prefetch(&wrapped, &mut channel, address);
    assert_eq!(*wrapped.read(&mut channel, address), 5);
    let report = channel.finish().unwrap();
    assert_eq!(report.misses, 1);
    assert_eq!(report.hits, 1);
}

#[test]
fn wrapper_adds_no_storage() {
    assert_eq!(
        std::mem::size_of::<Thrashe<usize>>(),
        std::mem::size_of::<usize>()
    );
    assert_eq!(std::mem::size_of::<Thrashe<[u8; 7]>>(), 7);
}
