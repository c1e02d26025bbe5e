use erased_vec::erased::ErasedVec;
use erased_vec::layout::ElemLayout;

// Element tokens for the two element types these tests store. Any value
// works: the container only compares tokens for identity.
const I32_TY: u64 = 0x1001;
const FOO_TY: u64 = 0x2002;

fn i32_layout() -> ElemLayout {
    ElemLayout { type_id: I32_TY, size: 4, align: 4 }
}

fn i32_bytes(v: i32) -> Vec<u8> {
    v.to_le_bytes().to_vec()
}

fn i32_back(s: &[u8]) -> i32 {
    let mut b = [0u8; 4];
    b.copy_from_slice(s);
    i32::from_le_bytes(b)
}

// A multi-field record type, stored through a fixed 23-byte encoding:
// each field in little-endian order, narrowest first.
#[derive(Clone, Debug, PartialEq, Eq)]
struct Foo {
    u8: u8,
    u16: u16,
    u32: u32,
    u64: u64,
    usize: usize,
}

const FOO_SIZE: usize = 23;

fn foo_layout() -> ElemLayout {
    ElemLayout { type_id: FOO_TY, size: FOO_SIZE, align: 8 }
}

fn foo_bytes(f: &Foo) -> Vec<u8> {
    let mut b = Vec::new();
    b.extend_from_slice(&f.u8.to_le_bytes());
    b.extend_from_slice(&f.u16.to_le_bytes());
    b.extend_from_slice(&f.u32.to_le_bytes());
    b.extend_from_slice(&f.u64.to_le_bytes());
    b.extend_from_slice(&(f.usize as u64).to_le_bytes());
    b
}

#[test]
fn test_i32() {
    println!("std::any::TypeId::of::<i32>() == {:?}", std::any::TypeId::of::<i32>());

    let mut vec = ErasedVec::with_capacity(i32_layout(), 4);

    vec.push(I32_TY, i32_bytes(4));
    vec.push(I32_TY, i32_bytes(12));
    vec.push(I32_TY, i32_bytes(36));

    assert_eq!(vec.get(I32_TY, 0), Some(&i32_bytes(4)[..]));
    assert_eq!(vec.get(I32_TY, 1), Some(&i32_bytes(12)[..]));
    assert_eq!(vec.get(I32_TY, 2), Some(&i32_bytes(36)[..]));
    assert_eq!(vec.get(I32_TY, 3), None);

    vec.push(I32_TY, i32_bytes(64));
    vec.push(I32_TY, i32_bytes(64));
    vec.push(I32_TY, i32_bytes(64));

    drop(vec);
}

#[test]
fn test_struct() {
    println!("std::any::TypeId::of::<Foo>() == {:?}", std::any::TypeId::of::<Foo>());

    let mut vec = ErasedVec::with_capacity(foo_layout(), 16);

    let foo1 = Foo {
        u8: 0x24,
        u16: 0x6f86,
        u32: 0xf4a342f4,
        u64: 0x7a7285f4f8fbd5eb,
        usize: 0x7d2772139c20fd39,
    };
    let foo2 = Foo {
        u8: 0xa9,
        u16: 0x68e4,
        u32: 0xb8cb2579,
        u64: 0x12c933706af64ccd,
        usize: 0x7d2772139c20fd39,
    };

    vec.push(FOO_TY, foo_bytes(&foo1));
    vec.push(FOO_TY, foo_bytes(&foo2));

    assert_eq!(vec.get(FOO_TY, 0), Some(&foo_bytes(&foo1)[..]));
    assert_eq!(vec.get(FOO_TY, 1), Some(&foo_bytes(&foo2)[..]));

    drop(vec);
}

#[test]
fn test_zero_cap() {
    let mut vec = ErasedVec::new(i32_layout());

    vec.push(I32_TY, i32_bytes(4));
    vec.push(I32_TY, i32_bytes(12));

    assert_eq!(vec.get(I32_TY, 0), Some(&i32_bytes(4)[..]));
    assert_eq!(vec.get(I32_TY, 1), Some(&i32_bytes(12)[..]));
}

#[test]
fn test_pop() {
    let mut vec = ErasedVec::new(i32_layout());

    vec.push(I32_TY, i32_bytes(42));
    vec.push(I32_TY, i32_bytes(68));

    vec.pop();

    assert_eq!(vec.get(I32_TY, 1), None);
    assert_eq!(vec.len(), 1);

    vec.pop();

    assert_eq!(vec.len(), 0);
}

#[test]
fn test_remove() {
    let mut vec = ErasedVec::new(foo_layout());

    let foo = Foo {
        u8: 0x24,
        u16: 0x6f86,
        u32: 0xf4a342f4,
        u64: 0x7a7285f4f8fbd5eb,
        usize: 0x7d2772139c20fd39,
    };

    vec.push(FOO_TY, foo_bytes(&foo));

    assert_eq!(vec.remove(FOO_TY, 0), foo_bytes(&foo));
}

#[test]
fn test_iter() {
    let mut vec = ErasedVec::with_capacity(i32_layout(), 4);

    vec.push(I32_TY, i32_bytes(4));
    vec.push(I32_TY, i32_bytes(12));
    vec.push(I32_TY, i32_bytes(36));

    let mut it = vec.iter(I32_TY);
    let mut collected: Vec<i32> = Vec::new();
    while let Some(s) = it.next() {
        collected.push(i32_back(s));
    }
    assert_eq!(collected, vec![4, 12, 36]);
}
