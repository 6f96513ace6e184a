use ethereum_types::U256;
use shadowmem::const_detector::ShadowConst;
use shadowmem::fake::ShadowFake;
use shadowmem::{ShadowMemory, ShadowReturnData};

use ShadowConst::{Const, NonConst, Undefined};

#[test]
fn empty_return_data_has_no_tags() {
    let data: ShadowReturnData<ShadowConst> = ShadowReturnData::empty();
    assert_eq!(data.len(), 0);
    assert_eq!(&*data, &[]);
}

#[test]
fn window_of_a_sub_call_buffer() {
    let buffer = vec![Const, Const, NonConst];
    let data = ShadowReturnData::new(buffer, 1, 2);
    assert_eq!(&*data, &[Const, NonConst]);
    assert_eq!(data.len(), 2);
    assert_eq!(data[0], Const);
    assert_eq!(data[1], NonConst);
}

#[test]
fn return_data_is_a_copy_of_its_own() {
    let mut parent: Vec<ShadowConst> = Vec::new();
    parent.expand(3);
    parent.write_slice(U256::from(0u64), &[Const, Const, NonConst]);
    let data = ShadowReturnData::new(parent.clone(), 1, 2);
    parent.write_byte(U256::from(1u64), Undefined);
    parent.write_byte(U256::from(2u64), Undefined);
    ShadowMemory::resize(&mut parent, 0);
    assert_eq!(&*data, &[Const, NonConst]);
}

#[test]
fn window_may_cover_the_whole_buffer_or_nothing() {
    let data = ShadowReturnData::new(vec![Const, NonConst], 0, 2);
    assert_eq!(&*data, &[Const, NonConst]);
    let data = ShadowReturnData::new(vec![Const, NonConst], 2, 0);
    assert_eq!(data.len(), 0);
    let data = ShadowReturnData::new(vec![Const, NonConst], 1, 0);
    assert_eq!(data.len(), 0);
}

#[test]
fn return_data_of_fake_tags() {
    let data = ShadowReturnData::new(vec![ShadowFake; 4], 1, 3);
    assert_eq!(data.len(), 3);
    let none: ShadowReturnData<ShadowFake> = ShadowReturnData::empty();
    assert_eq!(none.len(), 0);
}
