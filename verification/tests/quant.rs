use cubecl_metal4::arith::{gcd, lcm};
use cubecl_metal4::block::BlockSize;
use cubecl_metal4::codebook::{codebook_for, Codebook, Q2F, Q4F, Q6F};
use cubecl_metal4::scheme::{
    QuantLevel, QuantMode, QuantParam, QuantScheme, QuantStore, QuantValue, Rotation,
};

const VALUES: [QuantValue; 10] = [
    QuantValue::Q8F,
    QuantValue::E5M2,
    QuantValue::E4M3,
    QuantValue::Q6F,
    QuantValue::Q4F,
    QuantValue::E2M1,
    QuantValue::Q2F,
    QuantValue::Q8S,
    QuantValue::Q4S,
    QuantValue::Q2S,
];

fn stores(dim: usize) -> [QuantStore; 4] {
    [
        QuantStore::Native,
        QuantStore::PackedNative(dim),
        QuantStore::PackedU32(dim),
        QuantStore::PackedU32Dense(dim),
    ]
}

#[test]
fn gcd_and_lcm_values() {
    assert_eq!(gcd(12, 18), 6);
    assert_eq!(gcd(7, 0), 7);
    assert_eq!(gcd(0, 7), 7);
    assert_eq!(lcm(6, 32), 96);
    assert_eq!(lcm(8, 32), 32);
    assert_eq!(gcd(6, 32) * lcm(6, 32), 6 * 32);
}

#[test]
fn scheme_defaults() {
    let scheme = QuantScheme::default();
    assert_eq!(scheme.value, QuantValue::Q8F);
    assert_eq!(scheme.param, QuantParam::F32);
    assert_eq!(scheme.store, QuantStore::PackedU32(0));
    assert_eq!(scheme.level, QuantLevel::Tensor);
    assert_eq!(scheme.mode, QuantMode::Symmetric);
    assert_eq!(scheme.rotation, Rotation::NoRotation);
    assert_eq!(Rotation::default(), Rotation::NoRotation);
    assert_eq!(scheme.num_quants(), 4);
}

#[test]
fn scheme_builders_set_one_field_each() {
    let scheme = QuantScheme::default()
        .with_level(QuantLevel::block(&[32]))
        .with_mode(QuantMode::Codebook)
        .with_value(QuantValue::Q6F)
        .with_store(QuantStore::PackedU32Dense(1))
        .with_param(QuantParam::BF16)
        .with_rotation(Rotation::Rht { block: 32 });
    assert_eq!(scheme.level, QuantLevel::Block(BlockSize::new(&[32])));
    assert_eq!(scheme.mode, QuantMode::Codebook);
    assert_eq!(scheme.value, QuantValue::Q6F);
    assert_eq!(scheme.store, QuantStore::PackedU32Dense(1));
    assert_eq!(scheme.param, QuantParam::BF16);
    assert_eq!(scheme.rotation, Rotation::Rht { block: 32 });
}

#[test]
fn value_sizes_and_packing() {
    let sizes: Vec<usize> = VALUES.iter().map(|v| v.size_bits()).collect();
    assert_eq!(sizes, vec![8, 8, 8, 6, 4, 4, 2, 8, 4, 2]);
    for value in VALUES {
        let expected = if value == QuantValue::E2M1 { 2 } else { 1 };
        assert_eq!(value.native_packing(), expected);
        assert_eq!(QuantScheme::default().with_value(value).native_packing(), expected);
        assert_eq!(QuantScheme::default().with_value(value).size_bits_value(), value.size_bits());
    }
}

#[test]
fn value_ranges() {
    let ranges: Vec<(i32, i32)> = VALUES.iter().map(|v| v.range()).collect();
    assert_eq!(
        ranges,
        vec![
            (-128, 127),
            (-57344, 57344),
            (-448, 448),
            (-32, 31),
            (-8, 7),
            (-6, 6),
            (-2, 1),
            (-127, 127),
            (-7, 7),
            (-1, 1),
        ]
    );
    for value in VALUES {
        let (least, greatest) = value.range();
        assert_eq!(value.is_symmetric(), least == -greatest);
    }
    assert!(QuantValue::Q8S.is_symmetric());
    assert!(!QuantValue::Q8F.is_symmetric());
}

#[test]
fn store_sizes() {
    for value in VALUES {
        assert_eq!(QuantStore::Native.size_bits(&value), value.size_bits());
        assert_eq!(
            QuantStore::PackedNative(0).size_bits(&value),
            value.size_bits() * value.native_packing()
        );
        assert_eq!(QuantStore::PackedU32(0).size_bits(&value), 32);
        let dense = if value == QuantValue::Q6F { 96 } else { 32 };
        assert_eq!(QuantStore::PackedU32Dense(0).size_bits(&value), dense);
    }
}

#[test]
fn dense_six_bit_unit() {
    let scheme = QuantScheme::default()
        .with_value(QuantValue::Q6F)
        .with_store(QuantStore::PackedU32Dense(0));
    assert_eq!(scheme.size_bits_stored(), 96);
    assert_eq!(scheme.num_quants(), 16);
    assert_eq!(scheme.storage_words_per_unit(), 3);
    let plain = scheme.with_store(QuantStore::PackedU32(0));
    assert_eq!(plain.num_quants(), 5);
    assert_eq!(plain.storage_words_per_unit(), 1);
}

#[test]
fn quants_fill_their_element() {
    for value in VALUES {
        for store in stores(0) {
            let scheme = QuantScheme::default().with_value(value).with_store(store);
            let held = scheme.num_quants() * value.size_bits();
            if store == QuantStore::PackedU32(0) && value == QuantValue::Q6F {
                assert_eq!(held + 2, scheme.size_bits_stored());
            } else {
                assert_eq!(held, scheme.size_bits_stored());
            }
        }
    }
}

#[test]
fn native_stores_count_one_word_per_unit() {
    let scheme = QuantScheme::default().with_value(QuantValue::E2M1);
    assert_eq!(scheme.with_store(QuantStore::Native).storage_words_per_unit(), 1);
    assert_eq!(scheme.with_store(QuantStore::Native).num_quants(), 1);
    let packed = scheme.with_store(QuantStore::PackedNative(0));
    assert_eq!(packed.storage_words_per_unit(), 1);
    assert_eq!(packed.num_quants(), 2);
    assert_eq!(packed.size_bits_stored(), 8);
}

#[test]
fn packing_dim_is_swapped() {
    for store in stores(1) {
        let mut scheme = QuantScheme::default().with_store(store);
        let before = scheme.packing_dim();
        assert_eq!(before.is_some(), store != QuantStore::Native);
        scheme.swap_packing_dim(1, 3);
        assert_eq!(scheme.packing_dim(), before.map(|_| 3));
        scheme.swap_packing_dim(1, 3);
        assert_eq!(scheme.packing_dim(), before);
        scheme.swap_packing_dim(2, 3);
        assert_eq!(scheme.packing_dim(), before);
    }
}

#[test]
fn block_size_holds_its_dimensions() {
    let block = BlockSize::new(&[32, 16]);
    assert_eq!(block.as_slice(), &[32, 16]);
    assert_eq!(block.to_vec(), vec![32, 16]);
    assert_eq!(block.iter().copied().collect::<Vec<u8>>(), vec![32, 16]);
    assert_eq!(block.len(), 2);
    assert_eq!(block.num_elements(), 512);
    assert_eq!(block.debug_text(), "BlockSize([32, 16])");
    assert_eq!(BlockSize::new(&[]).debug_text(), "BlockSize([])");
    assert_eq!(BlockSize::new(&[]).num_elements(), 1);
    assert_eq!(BlockSize::MAX_DIMS, 5);
    assert_eq!(BlockSize::new(&[255; 5]).num_elements(), 255usize.pow(5));
}

#[test]
fn block_size_unsqueezes() {
    let block = BlockSize::new(&[32, 16]);
    assert_eq!(block.as_dim::<4>(), [1, 1, 32, 16]);
    assert_eq!(block.as_dim::<2>(), [32, 16]);
    assert_eq!(block.as_dim::<1>(), [32]);
    assert_eq!(block.to_dim_vec(4), vec![1, 1, 32, 16]);
    assert_eq!(block.to_dim_vec(1), vec![32]);
    assert_eq!(block.to_dim_vec(0), Vec::<u8>::new());
}

#[test]
fn block_size_trims_leading_zeros() {
    assert_eq!(BlockSize::new_trim(&[0, 0, 4, 0, 2]).as_slice(), &[4, 0, 2]);
    assert_eq!(BlockSize::new_trim(&[1, 4]).as_slice(), &[1, 4]);
    assert_eq!(BlockSize::new_trim(&[0, 0]).as_slice(), &[0, 0]);
    assert_eq!(BlockSize::new_trim(&[0, 1, 2, 3, 4, 5]).as_slice(), &[1, 2, 3, 4, 5]);
    let once = BlockSize::new_trim(&[0, 3]);
    assert_eq!(BlockSize::new_trim(once.as_slice()), once);
}

#[test]
fn block_size_from_slice_is_cut_down() {
    let values: &[u8] = &[1, 2, 3, 4, 5, 6];
    assert_eq!(BlockSize::from(values).as_slice(), &[1, 2, 3, 4, 5]);
    let values: &[u8] = &[7];
    assert_eq!(BlockSize::from(values), BlockSize::new(&[7]));
    assert_ne!(BlockSize::new(&[1]), BlockSize::new(&[1, 1]));
}

#[test]
fn codebooks_hold_the_centroids() {
    let two: [f32; 4] = [-1.510_400, -0.452_800, 0.452_800, 1.510_400];
    assert_eq!(Q2F.map(f32::from_bits), two);
    let four: [f32; 16] = [
        -2.732590, -2.069017, -1.618046, -1.256231, -0.942340, -0.656759, -0.388048, -0.128395,
        0.128395, 0.388048, 0.656759, 0.942340, 1.256231, 1.618046, 2.069017, 2.732590,
    ];
    assert_eq!(Q4F.map(f32::from_bits), four);
    let upper: [f32; 32] = [
        0.03319237, 0.09962796, 0.16621658, 0.23306199, 0.30027058, 0.36795256, 0.43622321,
        0.50520434, 0.57502585, 0.64582771, 0.71776211, 0.79099622, 0.86571539, 0.94212725,
        1.02046671, 1.10100239, 1.18404491, 1.26995767, 1.35917132, 1.45220328, 1.54968499,
        1.65240050, 1.76134301, 1.87780041, 2.00348979, 2.14077946, 2.29307792, 2.46556925,
        2.66675206, 2.91215583, 3.23553866, 3.73971331,
    ];
    for (i, &x) in upper.iter().enumerate() {
        assert_eq!(f32::from_bits(Q6F[32 + i]), x);
        assert_eq!(f32::from_bits(Q6F[31 - i]), -x);
    }
}

#[test]
fn codebooks_rise_and_are_found_by_value() {
    assert!(codebook_for(QuantValue::Q2F) == Codebook(&Q2F));
    assert!(codebook_for(QuantValue::Q4F) == Codebook(&Q4F));
    assert!(codebook_for(QuantValue::Q6F) == Codebook(&Q6F));
    for value in VALUES {
        let table = codebook_for(value);
        let numbers: Vec<f32> = table.0.iter().map(|&bits| f32::from_bits(bits)).collect();
        assert!(numbers.windows(2).all(|pair| pair[0] < pair[1]));
        assert!(numbers.is_empty() || numbers.len() == 1 << value.size_bits());
        assert_eq!(table.hash_words(), table.0.to_vec());
    }
    assert!(codebook_for(QuantValue::Q8F) == Codebook(&[]));
    assert!(codebook_for(QuantValue::Q2F) != codebook_for(QuantValue::Q4F));
}

#[test]
fn codebooks_compare_by_pattern() {
    const NAN: [u32; 1] = [0x7fc0_0000];
    const ZERO: [u32; 1] = [0];
    const NEGATIVE_ZERO: [u32; 1] = [0x8000_0000];
    assert!(Codebook(&NAN) == Codebook(&NAN));
    assert!(Codebook(&ZERO) != Codebook(&NEGATIVE_ZERO));
}

#[test]
fn schemes_are_printed_as_configured() {
    let block = BlockSize::new(&[32, 16]);
    assert_eq!(format!("{block:?}"), "BlockSize([32, 16])");
    assert_eq!(format!("{:?}", QuantLevel::Block(block)), "Block(BlockSize([32, 16]))");
    assert_eq!(format!("{:?}", Rotation::NoRotation), "None");
    assert_eq!(format!("{:?}", Rotation::Rht { block: 32 }), "Rht { block: 32 }");
    assert_eq!(format!("{:#?}", Rotation::Rht { block: 32 }), "Rht {\n    block: 32,\n}");
    assert_eq!(
        format!("{:?}", QuantScheme::default()),
        "QuantScheme { value: Q8F, param: F32, store: PackedU32(0), level: Tensor, \
         mode: Symmetric, rotation: None }"
    );
}
