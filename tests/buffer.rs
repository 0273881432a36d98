use std::io::Write;
use std::str::Utf8Error;

struct TestBuffer {
    buffer: Vec<u8>,
}

impl Write for TestBuffer {
    fn write(&mut self, buf: &[u8]) -> std::io::Result<usize> {
        self.buffer.write(buf)
    }

    fn flush(&mut self) -> std::io::Result<()> {
        self.buffer.flush()
    }
}

impl TestBuffer {
    fn new() -> TestBuffer {
        TestBuffer { buffer: vec![] }
    }

    fn writer(&mut self) -> &mut impl Write {
        &mut self.buffer
    }

    fn string(&self) -> Result<&str, Utf8Error> {
        std::str::from_utf8(&self.buffer)
    }
}

struct Junk<'t, T>
where
    T: Write,
{
    output: &'t mut T,
}

impl<'t, T> Junk<'t, T>
where
    T: Write,
{
    fn do_stuff(&mut self) {
        self.output.write_all(b"Hello World!").unwrap();
    }
}

fn check_write_to_test_buffer() {
    let mut tb = TestBuffer::new();
    let mut j = Junk {
        output: tb.writer(),
    };
    j.do_stuff();
    assert_eq!(tb.string().unwrap(), "Hello World!");

    let mut buf = std::io::stdout();
    let mut j = Junk { output: &mut buf };
    j.do_stuff();
}

#[test]
fn command_write_to_test_buffer() {
    check_write_to_test_buffer();
}

#[test]
fn lib_write_to_test_buffer() {
    check_write_to_test_buffer();
}
