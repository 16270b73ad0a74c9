use vmm_serde::{
    deserialize_ffi, deserialize_ffi_fam, serialize_ffi, serialize_ffi_fam, ByteBuf, KvmMemoryAlias,
    KvmMsrs, SizeofFamStruct,
};

fn msr_slot(value: u64) -> KvmMsrs {
    KvmMsrs::from_image(&value.to_le_bytes())
}

fn msrs_image(entries: &[u64]) -> Vec<u8> {
    let mut v = Vec::new();
    v.extend_from_slice(&(entries.len() as u32).to_le_bytes());
    v.extend_from_slice(&0u32.to_le_bytes());
    for e in entries {
        v.extend_from_slice(&e.to_le_bytes());
    }
    v
}

fn concat_images<T: SizeofFamStruct>(entries: &[T]) -> Vec<u8> {
    let mut v = Vec::new();
    for e in entries {
        v.extend_from_slice(&e.to_image());
    }
    v
}

#[test]
fn ffi_test_serde() {
    let a: u32 = 0x1234_5678;
    let bytes = serialize_ffi(&a);
    assert_eq!(bytes.to_vec(), vec![0x78, 0x56, 0x34, 0x12]);
    assert_eq!(deserialize_ffi::<u32>(bytes), Ok(a));

    let b: u32 = 7;
    let bytes = serialize_ffi_fam(&[b]);
    assert_eq!(bytes.len(), 4);
    assert_eq!(deserialize_ffi_fam::<u32>(bytes), Ok(vec![b]));
}

#[test]
fn ffi_test_kvm_structs() {
    let alias = KvmMemoryAlias {
        slot: 1,
        flags: 2,
        guest_phys_addr: 0x1000,
        memory_size: 0x2000,
        target_phys_addr: 0x3000,
    };
    let bytes = serialize_ffi(&alias);
    assert_eq!(bytes.len(), 32);
    assert_eq!(deserialize_ffi::<KvmMemoryAlias>(bytes), Ok(alias));

    let header = KvmMsrs { nmsrs: 2, pad: 0 };
    assert_eq!(header.size_of(), 24);
    assert_eq!(KvmMsrs::static_size_of(), 8);
    let msrs = [header, msr_slot(0x174), msr_slot(0xc000_0080)];
    let bytes = serialize_ffi_fam(&msrs);
    assert_eq!(bytes.to_vec(), msrs_image(&[0x174, 0xc000_0080]));
    let back = deserialize_ffi_fam::<KvmMsrs>(bytes).unwrap();
    assert_eq!(back, msrs.to_vec());
}

#[test]
fn fixed_round_trip_keeps_bytes() {
    let alias = KvmMemoryAlias {
        slot: 0xffff_ffff,
        flags: 0,
        guest_phys_addr: u64::MAX,
        memory_size: 1,
        target_phys_addr: 0x0123_4567_89ab_cdef,
    };
    let bytes = serialize_ffi(&alias);
    let image = bytes.to_vec();
    assert_eq!(&image[24..32], &0x0123_4567_89ab_cdefu64.to_le_bytes()[..]);
    let back = deserialize_ffi::<KvmMemoryAlias>(bytes).unwrap();
    assert_eq!(back.to_image(), image);
    assert_eq!(back, alias);
}

#[test]
fn fixed_size_mismatch_one_short_or_over() {
    let short = ByteBuf::from(vec![0u8; 31]);
    assert_eq!(deserialize_ffi::<KvmMemoryAlias>(short), Err((32, 31)));
    let long = ByteBuf::from(vec![0u8; 33]);
    assert_eq!(deserialize_ffi::<KvmMemoryAlias>(long), Err((32, 33)));
    let empty = ByteBuf::from(Vec::<u8>::new());
    assert_eq!(deserialize_ffi::<u32>(empty), Err((4, 0)));
}

#[test]
fn fam_without_tail_gives_one_entry() {
    let header = KvmMsrs { nmsrs: 0, pad: 9 };
    let bytes = serialize_ffi_fam(&[header]);
    assert_eq!(bytes.to_vec(), header.to_image());
    assert_eq!(deserialize_ffi_fam::<KvmMsrs>(bytes), Ok(vec![header]));
}

#[test]
fn fam_without_tail_refuses_longer_buffer() {
    let mut image = KvmMsrs { nmsrs: 0, pad: 0 }.to_image();
    image.push(0);
    assert_eq!(deserialize_ffi_fam::<KvmMsrs>(ByteBuf::from(image)), Err((8, 9)));
}

#[test]
fn fam_with_tail_round_trip() {
    let header = KvmMsrs { nmsrs: 3, pad: 0 };
    let msrs = [header, msr_slot(1), msr_slot(2), msr_slot(3), msr_slot(4)];
    let bytes = serialize_ffi_fam(&msrs);
    assert_eq!(bytes.len(), 32);
    let back = deserialize_ffi_fam::<KvmMsrs>(bytes).unwrap();
    assert_eq!(back.len(), 4);
    assert_eq!(concat_images(&back), concat_images(&msrs[..4]));
}

#[test]
fn fam_too_short_whatever_it_holds() {
    for len in 0..8usize {
        let buf = ByteBuf::from(vec![0xffu8; len]);
        assert_eq!(deserialize_ffi_fam::<KvmMsrs>(buf), Err((8, len)));
    }
}

#[test]
fn fam_length_disagrees_with_header() {
    let image = msrs_image(&[5, 6]);
    let shorter = ByteBuf::from(image[..16].to_vec());
    assert_eq!(deserialize_ffi_fam::<KvmMsrs>(shorter), Err((24, 16)));
    let mut longer = image.clone();
    longer.extend_from_slice(&[0u8; 8]);
    assert_eq!(deserialize_ffi_fam::<KvmMsrs>(ByteBuf::from(longer)), Err((24, 32)));
}

#[test]
fn fam_two_msrs_fill_three_slots() {
    let image = msrs_image(&[0x1111_2222_3333_4444, 0x5555_6666_7777_8888]);
    assert_eq!(image.len(), 24);
    let back = deserialize_ffi_fam::<KvmMsrs>(ByteBuf::from(image.clone())).unwrap();
    assert_eq!(back.len(), 3);
    assert_eq!(back[0], KvmMsrs { nmsrs: 2, pad: 0 });
    assert_eq!(back[1], KvmMsrs { nmsrs: 0x3333_4444, pad: 0x1111_2222 });
    assert_eq!(concat_images(&back), image);
}

#[test]
fn kvm_msrs_size_counts_entries() {
    assert_eq!(KvmMsrs { nmsrs: 0, pad: 0 }.size_of(), 8);
    assert_eq!(KvmMsrs { nmsrs: 256, pad: 0 }.size_of(), 2056);
    assert_eq!(KvmMsrs { nmsrs: u32::MAX, pad: 0 }.size_of(), 8 + 8 * (u32::MAX as usize));
}

#[test]
fn kvm_memory_alias_image_layout() {
    let alias = KvmMemoryAlias {
        slot: 0x0403_0201,
        flags: 0x0807_0605,
        guest_phys_addr: 0x100f_0e0d_0c0b_0a09,
        memory_size: 0x1817_1615_1413_1211,
        target_phys_addr: 0x201f_1e1d_1c1b_1a19,
    };
    let expected: Vec<u8> = (1u8..=32).collect();
    assert_eq!(alias.to_image(), expected);
    assert_eq!(KvmMemoryAlias::from_image(&expected), alias);
    assert_eq!(KvmMemoryAlias::static_size_of(), 32);
    assert_eq!(alias.size_of(), 32);
}

#[test]
fn byte_buf_holds_the_serialized_image() {
    let a: u32 = 0x0a0b_0c0d;
    assert_eq!(serialize_ffi(&a).into_vec(), vec![0x0d, 0x0c, 0x0b, 0x0a]);
    let b = KvmMsrs { nmsrs: 0, pad: 1 };
    assert_eq!(serialize_ffi_fam(&[b]).into_vec(), vec![0, 0, 0, 0, 1, 0, 0, 0]);
}
