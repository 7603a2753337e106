use ctrl_flow::instruction::{InsnInfo, JumpKind};
use ctrl_flow::listener::{Chunk, EventListener};
use ctrl_flow::register::{Info, RegisterInfo};
use ctrl_flow::tracer::open_session;
use ctrl_flow::{Architecture, Error, Event};

#[derive(Clone, Copy)]
enum WideReg {
    Low,
    High,
}

impl RegisterInfo for WideReg {
    fn value(&self) -> u64 {
        match self {
            WideReg::Low => 7,
            WideReg::High => 18446744073709551615,
        }
    }

    fn info(&self) -> Info<WideReg> {
        match self {
            WideReg::Low => {
                // A name holding a quote, a backslash and a control byte.
                Info::new(vec![0x61, 0x22, 0x5c, 0x01, 0x7a], *self, *self, Some(WideReg::High), 4)
            }
            WideReg::High => Info::new(Vec::new(), *self, WideReg::Low, None, 65535),
        }
    }

    fn iter() -> Vec<WideReg> {
        vec![WideReg::Low, WideReg::High]
    }
}

#[derive(Clone)]
struct WideInsn {
    bytes: Vec<u8>,
    kind: Option<JumpKind>,
}

impl InsnInfo for WideInsn {
    fn size(&self) -> Option<u16> {
        match self.kind {
            Some(_) => Some(65535),
            None => None,
        }
    }

    fn kind(&self) -> Option<JumpKind> {
        self.kind
    }

    fn payload(&self) -> Vec<u8> {
        self.bytes.clone()
    }

    fn duplicate(&self) -> WideInsn {
        self.clone()
    }
}

#[derive(Clone)]
struct WideArch;

impl Architecture for WideArch {
    type Register = WideReg;
    type Instruction = WideInsn;
    type AddressWidth = u64;
}

fn drive(listener: &mut EventListener<WideArch>) -> (Vec<u8>, Result<(), Error>) {
    let mut body = Vec::new();
    loop {
        match listener.poll_event() {
            Chunk::Quiet => {}
            Chunk::Bytes(mut b) => body.append(&mut b),
            Chunk::Last(mut b) => {
                body.append(&mut b);
                return (body, Ok(()));
            }
            Chunk::Fatal(e) => return (body, Err(e)),
        }
    }
}

#[test]
fn header_escapes_names() {
    let mem: Vec<(u64, u64)> = vec![(0, 0), (18446744073709551615, 1)];
    let (_tx, _listener, header) = open_session::<WideArch>(&mem);
    assert_eq!(
        String::from_utf8(header).unwrap(),
        "{\"info\":{\"width\":8,\"registers\":[{\"name\":\"a\\\"\\\\\\u0001z\",\"register\":7,\"base\":7,\"full_register\":18446744073709551615,\"size\":4},{\"name\":\"\",\"register\":18446744073709551615,\"base\":7,\"full_register\":null,\"size\":65535}],\"memory\":[[0,0],[18446744073709551615,1]]},\"instructions\":["
    );
}

#[test]
fn widest_values_round() {
    let mem: Vec<(u64, u64)> = Vec::new();
    let (tx, mut listener, _header) = open_session::<WideArch>(&mem);
    let insn = WideInsn { bytes: Vec::new(), kind: Some(JumpKind::Call) };
    tx.send(Event::InsnStart(18446744073709551615, insn)).unwrap();
    tx.send(Event::RegWrite(WideReg::High, Vec::new())).unwrap();
    tx.send(Event::InsnEnd).unwrap();
    tx.send(Event::Terminate).unwrap();
    let (body, result) = drive(&mut listener);
    assert!(result.is_ok());
    assert_eq!(
        String::from_utf8(body).unwrap(),
        "{\"addr\":18446744073709551615,\"insn\":[],\"size\":65535,\"kind\":\"Call\",\"events\":[{\"RegWrite\":[18446744073709551615,[]]}]}]}"
    );
}
