use minemu::image::pack::{PackedModule, build_image};
use minemu::image::{ImageBuilder, ImageError, ModuleInput, SystemImage, package};
use minemu::platform::{
    KernelSegment, MemRegion, ModuleRecord, ModuleSegment, PhysicalAddress, PlatformError, VirtualAddress,
};

fn kernel_elf() -> Vec<u8> {
    elf(
        0xc000_9000,
        &[
            (0x4000_8000, &[1, 2, 3, 4], 4),
            (0xc000_9000, &[5, 6, 7, 8], 4),
        ],
    )
}

fn module_elf() -> Vec<u8> {
    elf(0x0040_0000, &[(0x0040_0000, &[9, 10, 11, 12], 4)])
}

fn elf(entry: u32, segments: &[(u32, &[u8], u32)]) -> Vec<u8> {
    let header_size = 52usize;
    let program_header_size = 32usize;
    let total: usize = segments.iter().map(|(_, data, _)| data.len()).sum();
    let mut bytes = vec![0u8; 0x100 + total];
    bytes[..4].copy_from_slice(b"\x7fELF");
    bytes[4] = 1;
    bytes[5] = 1;
    bytes[6] = 1;
    put16(&mut bytes, 16, 2);
    put16(&mut bytes, 18, 40);
    put32(&mut bytes, 20, 1);
    put32(&mut bytes, 24, entry);
    put32(&mut bytes, 28, header_size as u32);
    put16(&mut bytes, 40, header_size as u16);
    put16(&mut bytes, 42, program_header_size as u16);
    put16(&mut bytes, 44, segments.len() as u16);
    let mut data_offset = 0x100;
    for (index, (address, data, memory_size)) in segments.iter().enumerate() {
        let offset = header_size + index * program_header_size;
        put32(&mut bytes, offset, 1);
        put32(&mut bytes, offset + 4, data_offset as u32);
        put32(&mut bytes, offset + 8, *address);
        put32(&mut bytes, offset + 12, *address);
        put32(&mut bytes, offset + 16, data.len() as u32);
        put32(&mut bytes, offset + 20, *memory_size);
        put32(&mut bytes, offset + 24, 5);
        put32(&mut bytes, offset + 28, 4);
        bytes[data_offset..data_offset + data.len()].copy_from_slice(data);
        data_offset += data.len();
    }
    bytes.truncate(data_offset.max(header_size + segments.len() * program_header_size));
    bytes
}

fn put16(bytes: &mut [u8], offset: usize, value: u16) {
    bytes[offset..offset + 2].copy_from_slice(&value.to_le_bytes());
}

fn put32(bytes: &mut [u8], offset: usize, value: u32) {
    bytes[offset..offset + 4].copy_from_slice(&value.to_le_bytes());
}

#[test]
fn canonical_layout_of_a_kernel_only_image() {
    let image = ImageBuilder::new(&kernel_elf()).build().unwrap();
    let header = image.header();
    assert_eq!(header.kernel_segment_table_offset, 64);
    assert_eq!(header.kernel_segment_count, 2);
    assert_eq!(header.module_table_offset, 128);
    assert_eq!(header.module_count, 0);
    // Header, two kernel records, then the two 4-byte data blocks.
    assert_eq!(header.image_size, 136);
    assert_eq!(image.bytes().len(), 136);
    let segments = image.kernel_segments();
    assert_eq!(segments[0].data_offset, 128);
    assert_eq!(segments[1].data_offset, 132);
    assert_eq!(segments[1].physical_address, PhysicalAddress::new(0x4000_9000));
    assert_eq!(&image.bytes()[128..136], &[1, 2, 3, 4, 5, 6, 7, 8]);
    assert_eq!(SystemImage::parse(image.bytes()).unwrap(), image);
}

#[test]
fn modules_are_packed_in_name_order() {
    let module = module_elf();
    let image = ImageBuilder::new(&kernel_elf())
        .add_module(ModuleInput {
            name: "zeta",
            elf: &module,
        })
        .add_module(ModuleInput {
            name: "alpha",
            elf: &module,
        })
        .build()
        .unwrap();
    assert_eq!(image.modules()[0].name, "alpha");
    assert_eq!(image.modules()[1].name, "zeta");
    assert_eq!(
        image.modules()[0].record.entry_virtual_address,
        VirtualAddress::new(0x0040_0000)
    );
}

#[test]
fn duplicate_and_empty_module_names_are_rejected() {
    let module = module_elf();
    let kernel = kernel_elf();
    let duplicate = [
        ModuleInput {
            name: "shell",
            elf: &module,
        },
        ModuleInput {
            name: "shell",
            elf: &module,
        },
    ];
    assert!(matches!(
        package(&kernel, &duplicate),
        Err(ImageError::InvalidImage("duplicate module name"))
    ));
    let empty = [ModuleInput {
        name: "",
        elf: &module,
    }];
    assert!(matches!(
        package(&kernel, &empty),
        Err(ImageError::InvalidImage("module name"))
    ));
}

#[test]
fn package_matches_the_builder() {
    let module = module_elf();
    let kernel = kernel_elf();
    let inputs = [ModuleInput {
        name: "init",
        elf: &module,
    }];
    let packaged = package(&kernel, &inputs).unwrap();
    let built = ImageBuilder::new(&kernel).add_module(inputs[0]).build().unwrap();
    assert_eq!(packaged.bytes(), built.bytes());
}

#[test]
fn non_elf_inputs_are_rejected() {
    assert!(matches!(
        ImageBuilder::new(&[0u8; 16]).build(),
        Err(ImageError::Elf(_))
    ));
    let no_segments = elf(0xc000_9000, &[]);
    assert!(ImageBuilder::new(&no_segments).build().is_err());
}

#[test]
fn invalid_utf8_module_names_are_rejected_by_the_parser() {
    let module = module_elf();
    let image = ImageBuilder::new(&kernel_elf())
        .add_module(ModuleInput {
            name: "shell",
            elf: &module,
        })
        .build()
        .unwrap();
    let record = image.header().module_table_offset as usize;
    let name_offset =
        u32::from_le_bytes(image.bytes()[record..record + 4].try_into().unwrap()) as usize;
    let mut corrupt = image.bytes().to_vec();
    corrupt[name_offset] = 0xff;
    assert!(matches!(
        SystemImage::parse(&corrupt),
        Err(ImageError::InvalidImage("module name is not UTF-8"))
    ));
}

#[test]
fn parser_reports_the_first_invalid_field() {
    assert!(matches!(
        SystemImage::parse(&[0u8; 8]),
        Err(ImageError::Platform(PlatformError::InvalidImageLength { .. }))
    ));
    let image = ImageBuilder::new(&kernel_elf()).build().unwrap();
    let mut extended = image.bytes().to_vec();
    extended.push(0);
    assert!(matches!(
        SystemImage::parse(&extended),
        Err(ImageError::InvalidImage("image size"))
    ));
}

#[test]
fn boot_plan_stops_at_the_first_failed_write() {
    let image = ImageBuilder::new(&kernel_elf()).build().unwrap();
    let plan = image.boot_plan().unwrap();
    assert_eq!(plan.boot_info_paddr, PhysicalAddress::new(0x4000_7000));
    assert_eq!(plan.bootstrap_entry_paddr, PhysicalAddress::new(0x4000_8000));
    assert_eq!(plan.copies[1].physical_address, PhysicalAddress::new(0x4000_9000));
    assert_eq!(plan.copies[1].zeroed_length, 0);
    let mut count = 0;
    let result = plan.apply(|_, _| {
        count += 1;
        if count == 2 { Err("full") } else { Ok(()) }
    });
    assert_eq!(result, Err("full"));
    assert_eq!(count, 2);
    assert_eq!(
        MemRegion::SystemRom.base(),
        PhysicalAddress::new(u32::from_le_bytes(plan.boot_info[8..12].try_into().unwrap()))
    );
}

#[test]
fn refusals_come_in_the_order_the_checks_are_made() {
    let outside = elf(
        0xc000_9000,
        &[
            (0x4000_8000, &[1, 2, 3, 4], 4),
            (0x0000_1000, &[5, 6, 7, 8], 4),
        ],
    );
    assert!(matches!(
        ImageBuilder::new(&outside).build(),
        Err(ImageError::Platform(PlatformError::AddressOutsideRam(0x1000)))
    ));
    let kernel = kernel_elf();
    let module = module_elf();
    let inputs = [
        ModuleInput {
            name: "",
            elf: &[0u8; 8],
        },
        ModuleInput {
            name: "init",
            elf: &module,
        },
    ];
    assert!(matches!(
        package(&kernel, &inputs),
        Err(ImageError::InvalidImage("module name"))
    ));
    let inputs = [
        ModuleInput {
            name: "init",
            elf: &[0u8; 8],
        },
        ModuleInput {
            name: "",
            elf: &module,
        },
    ];
    assert!(matches!(package(&kernel, &inputs), Err(ImageError::Elf(_))));
}

#[test]
fn module_order_does_not_change_the_image() {
    let kernel = kernel_elf();
    let module = module_elf();
    let first = [
        ModuleInput {
            name: "a",
            elf: &module,
        },
        ModuleInput {
            name: "b",
            elf: &module,
        },
    ];
    let second = [first[1], first[0]];
    let one = package(&kernel, &first).unwrap();
    let two = package(&kernel, &second).unwrap();
    assert_eq!(one.bytes(), two.bytes());
}

#[test]
fn packed_kernel_records_read_back_with_assigned_data_offsets() {
    let code = KernelSegment {
        data_offset: 0,
        physical_address: PhysicalAddress::new(0x4000_8000),
        virtual_address: VirtualAddress::new(0xc000_8000),
        file_size: 4,
        memory_size: 4,
        flags: 5,
    };
    let bss = KernelSegment {
        data_offset: 0,
        physical_address: PhysicalAddress::new(0x4000_9000),
        virtual_address: VirtualAddress::new(0xc000_9000),
        file_size: 0,
        memory_size: 0x1000,
        flags: 3,
    };
    let image = build_image(
        VirtualAddress::new(0xc000_8000),
        vec![(code, vec![1, 2, 3, 4]), (bss, Vec::new())],
        Vec::<PackedModule>::new(),
    )
    .unwrap();
    let segments = image.kernel_segments();
    assert_eq!(segments.len(), 2);
    assert_eq!(segments[0], KernelSegment { data_offset: 128, ..code });
    assert_eq!(segments[1], bss);
    assert_eq!(image.header().image_size, 132);
    assert_eq!(&image.bytes()[128..132], &[1, 2, 3, 4]);
}

#[test]
fn packed_modules_read_back_with_their_records_names_and_segments() {
    let code = KernelSegment {
        data_offset: 0,
        physical_address: PhysicalAddress::new(0x4000_8000),
        virtual_address: VirtualAddress::new(0xc000_8000),
        file_size: 4,
        memory_size: 4,
        flags: 5,
    };
    let module_code = ModuleSegment {
        data_offset: 0,
        virtual_address: VirtualAddress::new(0x0040_0000),
        file_size: 4,
        memory_size: 4,
        flags: 5,
    };
    let module_bss = ModuleSegment {
        data_offset: 0,
        virtual_address: VirtualAddress::new(0x0041_0000),
        file_size: 0,
        memory_size: 0x1000,
        flags: 3,
    };
    let module = PackedModule {
        name: b"init".to_vec(),
        entry: VirtualAddress::new(0x0040_0000),
        segments: vec![(module_code, vec![9, 10, 11, 12]), (module_bss, Vec::new())],
    };
    let image = build_image(
        VirtualAddress::new(0xc000_8000),
        vec![(code, vec![1, 2, 3, 4])],
        vec![module],
    )
    .unwrap();
    assert_eq!(image.header().image_size, 204);
    let modules = image.modules();
    assert_eq!(modules.len(), 1);
    assert_eq!(modules[0].name, "init");
    assert_eq!(
        modules[0].record,
        ModuleRecord {
            name_offset: 192,
            name_length: 4,
            segment_table_offset: 128,
            segment_count: 2,
            entry_virtual_address: VirtualAddress::new(0x0040_0000),
        }
    );
    assert_eq!(modules[0].segments, vec![ModuleSegment { data_offset: 200, ..module_code }, module_bss]);
    assert_eq!(image.kernel_segments()[0].data_offset, 196);
    assert_eq!(&image.bytes()[192..204], b"init\x01\x02\x03\x04\x09\x0a\x0b\x0c".as_slice());
}

#[test]
fn a_kernel_entry_outside_the_direct_map_is_refused_by_the_header() {
    let code = KernelSegment {
        data_offset: 0,
        physical_address: PhysicalAddress::new(0x4000_8000),
        virtual_address: VirtualAddress::new(0x4000_8000),
        file_size: 4,
        memory_size: 4,
        flags: 5,
    };
    let result = build_image(
        VirtualAddress::new(0x4000_8000),
        vec![(code, vec![1, 2, 3, 4])],
        Vec::<PackedModule>::new(),
    );
    assert!(matches!(
        result,
        Err(ImageError::Platform(PlatformError::AddressOutsideRam(0x4000_8000)))
    ));
}
