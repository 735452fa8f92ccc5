use uf_ulog::sample::{encode_fields, FieldValue, ScalarValue};
use uf_ulog::schema::{describe, AttrEntry, FieldDecl, StructBody, StructDecl, TypeShape};
use uf_ulog::{EncodeError, LogLevel, LoggedString, Subscription, ULogData};

fn field(name: &str, ty: &str) -> FieldDecl {
    FieldDecl {
        name: name.to_string(),
        shape: TypeShape::Name(ty.to_string()),
    }
}

fn gyro_decl() -> StructDecl {
    StructDecl {
        ident: "Gyro".to_string(),
        has_generics: false,
        attrs: vec![AttrEntry {
            key: "name".to_string(),
            value: Some("gyro".to_string()),
        }],
        body: StructBody::Named(vec![
            field("timestamp", "u64"),
            field("x", "f32"),
            field("y", "f32"),
            field("z", "f32"),
        ]),
    }
}

#[test]
fn lib_test_basic() {
    struct Acc {
        pub timestamp: u64,
        pub x: f32,
        pub y: f32,
        pub z: f32,
    }

    impl ULogData for Acc {
        const FORMAT: &'static str = "uint64_t timestamp;float x;float y;float z;";
        const NAME: &'static str = "Acc";
        const WIRE_SIZE: usize = 20;

        fn timestamp(&self) -> u64 {
            self.timestamp
        }

        fn encode(&self, buf: &mut [u8]) -> Result<usize, EncodeError> {
            if buf.len() < Self::WIRE_SIZE {
                return Err(EncodeError::BufferOverflow);
            }

            buf[0..8].copy_from_slice(&self.timestamp().to_le_bytes());
            buf[8..12].copy_from_slice(&self.x.to_le_bytes());
            buf[12..16].copy_from_slice(&self.y.to_le_bytes());
            buf[16..20].copy_from_slice(&self.z.to_le_bytes());
            Ok(Self::WIRE_SIZE)
        }
    }

    let a = Acc {
        timestamp: 0x0807_0605_0403_0201,
        x: 1.0,
        y: -2.5,
        z: 0.5,
    };
    assert_eq!(a.timestamp(), 0x0807_0605_0403_0201);
    assert_eq!(a.x, 1.0);
    assert_eq!(a.y, -2.5);
    assert_eq!(a.z, 0.5);
    assert_eq!(Acc::FORMAT, "uint64_t timestamp;float x;float y;float z;");
    assert_eq!(Acc::NAME, "Acc");
    assert_eq!(Acc::WIRE_SIZE, 20);

    let mut encoded = [0u8; Acc::WIRE_SIZE];
    a.encode(&mut encoded).unwrap();
    assert_eq!(
        encoded,
        [1, 2, 3, 4, 5, 6, 7, 8, 0, 0, 128, 63, 0, 0, 32, 192, 0, 0, 0, 63,]
    );

    let mut short = [0u8; Acc::WIRE_SIZE - 1];
    assert_eq!(a.encode(&mut short), Err(EncodeError::BufferOverflow));
}

#[test]
fn types_test_basic() {
    struct Acc {
        pub timestamp: u64,
        pub x: f32,
        pub y: f32,
        pub z: f32,
    }

    impl ULogData for Acc {
        const FORMAT: &'static str = "uint64_t timestamp;float x;float y;float z;";
        const NAME: &'static str = "Acc";
        const WIRE_SIZE: usize = 20;

        fn timestamp(&self) -> u64 {
            self.timestamp
        }

        fn encode(&self, buf: &mut [u8]) -> Result<usize, EncodeError> {
            if buf.len() < Self::WIRE_SIZE {
                return Err(EncodeError::BufferOverflow);
            }

            buf[0..8].copy_from_slice(&self.timestamp().to_le_bytes());
            buf[8..12].copy_from_slice(&self.x.to_le_bytes());
            buf[12..16].copy_from_slice(&self.y.to_le_bytes());
            buf[16..20].copy_from_slice(&self.z.to_le_bytes());
            Ok(Self::WIRE_SIZE)
        }
    }

    let a = Acc {
        timestamp: 0x0807_0605_0403_0201,
        x: 1.0,
        y: -2.5,
        z: 0.5,
    };
    assert_eq!(a.timestamp(), 0x0807_0605_0403_0201);
    assert_eq!(a.x, 1.0);
    assert_eq!(a.y, -2.5);
    assert_eq!(a.z, 0.5);
    assert_eq!(Acc::FORMAT, "uint64_t timestamp;float x;float y;float z;");
    assert_eq!(Acc::NAME, "Acc");
    assert_eq!(Acc::WIRE_SIZE, 20);

    let mut encoded = [0u8; Acc::WIRE_SIZE];
    a.encode(&mut encoded).unwrap();
    assert_eq!(
        encoded,
        [1, 2, 3, 4, 5, 6, 7, 8, 0, 0, 128, 63, 0, 0, 32, 192, 0, 0, 0, 63,]
    );

    let mut short = [0u8; Acc::WIRE_SIZE - 1];
    assert_eq!(a.encode(&mut short), Err(EncodeError::BufferOverflow));
}

#[test]
fn data_test_basic() {
    struct Acc {
        pub timestamp: u64,
        pub x: f32,
        pub y: f32,
        pub z: f32,
    }

    impl ULogData for Acc {
        const FORMAT: &'static str = "uint64_t timestamp;float x;float y;float z;";
        const NAME: &'static str = "Acc";
        const WIRE_SIZE: usize = 20;

        fn timestamp(&self) -> u64 {
            self.timestamp
        }

        fn encode(&self, buf: &mut [u8]) -> Result<usize, EncodeError> {
            if buf.len() < Self::WIRE_SIZE {
                return Err(EncodeError::BufferOverflow);
            }

            buf[0..8].copy_from_slice(&self.timestamp().to_le_bytes());
            buf[8..12].copy_from_slice(&self.x.to_le_bytes());
            buf[12..16].copy_from_slice(&self.y.to_le_bytes());
            buf[16..20].copy_from_slice(&self.z.to_le_bytes());
            Ok(Self::WIRE_SIZE)
        }
    }

    let a = Acc {
        timestamp: 0x0807_0605_0403_0201,
        x: 1.0,
        y: -2.5,
        z: 0.5,
    };
    assert_eq!(a.timestamp(), 0x0807_0605_0403_0201);
    assert_eq!(a.x, 1.0);
    assert_eq!(a.y, -2.5);
    assert_eq!(a.z, 0.5);
    assert_eq!(Acc::FORMAT, "uint64_t timestamp;float x;float y;float z;");
    assert_eq!(Acc::NAME, "Acc");
    assert_eq!(Acc::WIRE_SIZE, 20);

    let mut encoded = [0u8; Acc::WIRE_SIZE];
    a.encode(&mut encoded).unwrap();
    assert_eq!(
        encoded,
        [1, 2, 3, 4, 5, 6, 7, 8, 0, 0, 128, 63, 0, 0, 32, 192, 0, 0, 0, 63,]
    );

    let mut short = [0u8; Acc::WIRE_SIZE - 1];
    assert_eq!(a.encode(&mut short), Err(EncodeError::BufferOverflow));
}

#[test]
fn lib_test_derive() {
    // What the derive makes of
    //
    //     #[uf_ulog(name = "gyro")]
    //     struct Gyro { timestamp: u64, x: f32, y: f32, z: f32 }
    //
    // is what `describe` says of the declaration, and the encoding of the
    // fields in their order.
    struct Gyro {
        pub timestamp: u64,
        pub x: f32,
        pub y: f32,
        pub z: f32,
    }

    impl ULogData for Gyro {
        const FORMAT: &'static str = "uint64_t timestamp;float x;float y;float z;";
        const NAME: &'static str = "gyro";
        const WIRE_SIZE: usize = 20;

        fn timestamp(&self) -> u64 {
            self.timestamp
        }

        fn encode(&self, buf: &mut [u8]) -> Result<usize, EncodeError> {
            let values = [
                FieldValue::Scalar(ScalarValue::U64(self.timestamp)),
                FieldValue::Scalar(ScalarValue::F32(self.x.to_bits())),
                FieldValue::Scalar(ScalarValue::F32(self.y.to_bits())),
                FieldValue::Scalar(ScalarValue::F32(self.z.to_bits())),
            ];
            encode_fields(&values, buf)
        }
    }

    let description = describe(&gyro_decl()).unwrap();
    assert_eq!(description.wire_size, Gyro::WIRE_SIZE);
    assert_eq!(description.format, Gyro::FORMAT.as_bytes());
    assert_eq!(description.name, Gyro::NAME);

    let g = Gyro {
        timestamp: 0x0807_0605_0403_0201,
        x: 1.0,
        y: -2.5,
        z: 0.5,
    };
    assert_eq!(g.timestamp(), 0x0807_0605_0403_0201);
    assert_eq!(g.x, 1.0);
    assert_eq!(g.y, -2.5);
    assert_eq!(g.z, 0.5);
    assert_eq!(Gyro::WIRE_SIZE, 20);
    assert_eq!(Gyro::FORMAT, "uint64_t timestamp;float x;float y;float z;");
    assert_eq!(Gyro::NAME, "gyro");

    let mut encoded = [0u8; Gyro::WIRE_SIZE];
    g.encode(&mut encoded).unwrap();
    assert_eq!(
        encoded,
        [1, 2, 3, 4, 5, 6, 7, 8, 0, 0, 128, 63, 0, 0, 32, 192, 0, 0, 0, 63,]
    );

    let mut short = [0u8; Gyro::WIRE_SIZE - 1];
    assert_eq!(g.encode(&mut short), Err(EncodeError::BufferOverflow));
}

#[test]
fn types_test_derive() {
    // What the derive makes of
    //
    //     #[uf_ulog(name = "gyro")]
    //     struct Gyro { timestamp: u64, x: f32, y: f32, z: f32 }
    //
    // is what `describe` says of the declaration, and the encoding of the
    // fields in their order.
    struct Gyro {
        pub timestamp: u64,
        pub x: f32,
        pub y: f32,
        pub z: f32,
    }

    impl ULogData for Gyro {
        const FORMAT: &'static str = "uint64_t timestamp;float x;float y;float z;";
        const NAME: &'static str = "gyro";
        const WIRE_SIZE: usize = 20;

        fn timestamp(&self) -> u64 {
            self.timestamp
        }

        fn encode(&self, buf: &mut [u8]) -> Result<usize, EncodeError> {
            let values = [
                FieldValue::Scalar(ScalarValue::U64(self.timestamp)),
                FieldValue::Scalar(ScalarValue::F32(self.x.to_bits())),
                FieldValue::Scalar(ScalarValue::F32(self.y.to_bits())),
                FieldValue::Scalar(ScalarValue::F32(self.z.to_bits())),
            ];
            encode_fields(&values, buf)
        }
    }

    let description = describe(&gyro_decl()).unwrap();
    assert_eq!(description.wire_size, Gyro::WIRE_SIZE);
    assert_eq!(description.format, Gyro::FORMAT.as_bytes());
    assert_eq!(description.name, Gyro::NAME);

    let g = Gyro {
        timestamp: 0x0807_0605_0403_0201,
        x: 1.0,
        y: -2.5,
        z: 0.5,
    };
    assert_eq!(g.timestamp(), 0x0807_0605_0403_0201);
    assert_eq!(g.x, 1.0);
    assert_eq!(g.y, -2.5);
    assert_eq!(g.z, 0.5);
    assert_eq!(Gyro::WIRE_SIZE, 20);
    assert_eq!(Gyro::FORMAT, "uint64_t timestamp;float x;float y;float z;");
    assert_eq!(Gyro::NAME, "gyro");

    let mut encoded = [0u8; Gyro::WIRE_SIZE];
    g.encode(&mut encoded).unwrap();
    assert_eq!(
        encoded,
        [1, 2, 3, 4, 5, 6, 7, 8, 0, 0, 128, 63, 0, 0, 32, 192, 0, 0, 0, 63,]
    );

    let mut short = [0u8; Gyro::WIRE_SIZE - 1];
    assert_eq!(g.encode(&mut short), Err(EncodeError::BufferOverflow));
}

#[test]
fn data_test_derive() {
    // What the derive makes of
    //
    //     #[uf_ulog(name = "gyro")]
    //     struct Gyro { timestamp: u64, x: f32, y: f32, z: f32 }
    //
    // is what `describe` says of the declaration, and the encoding of the
    // fields in their order.
    struct Gyro {
        pub timestamp: u64,
        pub x: f32,
        pub y: f32,
        pub z: f32,
    }

    impl ULogData for Gyro {
        const FORMAT: &'static str = "uint64_t timestamp;float x;float y;float z;";
        const NAME: &'static str = "gyro";
        const WIRE_SIZE: usize = 20;

        fn timestamp(&self) -> u64 {
            self.timestamp
        }

        fn encode(&self, buf: &mut [u8]) -> Result<usize, EncodeError> {
            let values = [
                FieldValue::Scalar(ScalarValue::U64(self.timestamp)),
                FieldValue::Scalar(ScalarValue::F32(self.x.to_bits())),
                FieldValue::Scalar(ScalarValue::F32(self.y.to_bits())),
                FieldValue::Scalar(ScalarValue::F32(self.z.to_bits())),
            ];
            encode_fields(&values, buf)
        }
    }

    let description = describe(&gyro_decl()).unwrap();
    assert_eq!(description.wire_size, Gyro::WIRE_SIZE);
    assert_eq!(description.format, Gyro::FORMAT.as_bytes());
    assert_eq!(description.name, Gyro::NAME);

    let g = Gyro {
        timestamp: 0x0807_0605_0403_0201,
        x: 1.0,
        y: -2.5,
        z: 0.5,
    };
    assert_eq!(g.timestamp(), 0x0807_0605_0403_0201);
    assert_eq!(g.x, 1.0);
    assert_eq!(g.y, -2.5);
    assert_eq!(g.z, 0.5);
    assert_eq!(Gyro::WIRE_SIZE, 20);
    assert_eq!(Gyro::FORMAT, "uint64_t timestamp;float x;float y;float z;");
    assert_eq!(Gyro::NAME, "gyro");

    let mut encoded = [0u8; Gyro::WIRE_SIZE];
    g.encode(&mut encoded).unwrap();
    assert_eq!(
        encoded,
        [1, 2, 3, 4, 5, 6, 7, 8, 0, 0, 128, 63, 0, 0, 32, 192, 0, 0, 0, 63,]
    );

    let mut short = [0u8; Gyro::WIRE_SIZE - 1];
    assert_eq!(g.encode(&mut short), Err(EncodeError::BufferOverflow));
}

#[test]
fn log_levels_are_ascii_digits() {
    let levels = [
        (LogLevel::Emerg, b'0'),
        (LogLevel::Alert, b'1'),
        (LogLevel::Crit, b'2'),
        (LogLevel::Error, b'3'),
        (LogLevel::Warning, b'4'),
        (LogLevel::Notice, b'5'),
        (LogLevel::Info, b'6'),
        (LogLevel::Debug, b'7'),
    ];
    for (level, byte) in levels {
        assert_eq!(level.as_u8(), byte);
    }
}

#[test]
fn plain_values_keep_their_fields() {
    let line = LoggedString {
        level: LogLevel::Warning,
        tag: Some(7),
        timestamp: 9,
        msg: "low battery",
    };
    assert_eq!(line.level, LogLevel::Warning);
    assert_eq!(line.tag, Some(7));
    assert_eq!(line.timestamp, 9);
    assert_eq!(line.msg, "low battery");

    let subscription = Subscription {
        multi_id: 1,
        msg_id: 2,
        msg_name: "gyro",
    };
    let copy = subscription.clone();
    assert_eq!(copy.multi_id, 1);
    assert_eq!(copy.msg_id, 2);
    assert_eq!(copy.msg_name, "gyro");
}
