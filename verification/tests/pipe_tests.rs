use streamutils::pipe::Pipe;

#[test]
fn pipe_test() {
    let x = 2i32.pipe(|v: i32| v + 3);
    assert_eq!(x, 5);

    let s = "word".pipe(|v: &str| v.len());
    assert_eq!(s, 4);
}
