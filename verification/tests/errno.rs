use demikernel::runtime::errno;

#[test]
fn the_constants_are_those_of_the_platform() {
    assert_eq!(errno::EIO, libc::EIO);
    assert_eq!(errno::EBADF, libc::EBADF);
    assert_eq!(errno::EAGAIN, libc::EAGAIN);
    assert_eq!(errno::EINVAL, libc::EINVAL);
    assert_eq!(errno::EBADMSG, libc::EBADMSG);
    assert_eq!(errno::ENOTSUP, libc::ENOTSUP);
    assert_eq!(errno::ECONNRESET, libc::ECONNRESET);
    assert_eq!(errno::ENOTCONN, libc::ENOTCONN);
    assert_eq!(errno::ETIMEDOUT, libc::ETIMEDOUT);
    assert_eq!(errno::ECANCELED, libc::ECANCELED);
    assert_eq!(errno::AF_INET, libc::AF_INET);
    assert_eq!(errno::SOCK_STREAM, libc::SOCK_STREAM);
}
