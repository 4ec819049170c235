use ld_memory::{Memory, MemorySection};

#[test]
fn basic_memory() {
    let memory = Memory::new();
    assert_eq!(memory.to_string(), "MEMORY\n{\n}\n");
}

#[test]
fn basic_section() {
    let section = MemorySection::new("SectionName", 0, 0xFFFF);
    assert_eq!(
        section.to_string(),
        "    SectionName : ORIGIN = 0x0, LENGTH = 0xFFFF\n"
    );
}

#[test]
fn section_offset() {
    let section = MemorySection::new("SectionName", 0, 0x10000)
        .offset(0x1000)
        .unwrap();
    assert_eq!(
        section.to_string(),
        "    SectionName : ORIGIN = 0x1000, LENGTH = 0xF000\n"
    );
}

#[test]
fn section_attrs() {
    let section = MemorySection::new("SectionName", 0, 0x10000).attrs("r!w!x");
    assert_eq!(
        section.to_string(),
        "    SectionName (r!w!x): ORIGIN = 0x0, LENGTH = 0x10000\n"
    );
}

#[test]
fn complex() {
    let memory = Memory::new().add_section(
        MemorySection::new("SectionName", 0, 0x10000)
            .offset(0x1000)
            .unwrap()
            .attrs("rw!x"),
    );

    assert_eq!(
        memory.to_string(),
        "MEMORY\n{\n    SectionName (rw!x): ORIGIN = 0x1000, LENGTH = 0xF000\n}\n"
    );
}

#[test]
fn two_sections_in_order() {
    let memory = Memory::new()
        .add_section(MemorySection::new("flash", 0x0800_0000, 1024))
        .add_section(MemorySection::new("ram", 0x2000_0000, 2048));
    assert_eq!(
        memory.to_string(),
        "MEMORY\n{\n    flash : ORIGIN = 0x8000000, LENGTH = 0x400\n    ram : ORIGIN = 0x20000000, LENGTH = 0x800\n}\n"
    );
}

#[test]
fn render_twice_identical() {
    let memory = Memory::new()
        .add_section(MemorySection::new("a", 7, 9).attrs("rx"))
        .add_section(MemorySection::new("b", 0, 0));
    let first = memory.to_string();
    let second = memory.to_string();
    assert_eq!(first, second);
}

#[test]
fn wide_origin_renders_in_full() {
    let section = MemorySection::new("top", 0xFFFF_FFFF_FFFF_FFFF, 0);
    assert_eq!(
        section.to_string(),
        "    top : ORIGIN = 0xFFFFFFFFFFFFFFFF, LENGTH = 0x0\n"
    );
}
