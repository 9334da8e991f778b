use http_server::oscode::{
    EAGAIN, EBADF, EDESTADDRREQ, EDQUOT, EFAULT, EFBIG, EINVAL, EIO, EISDIR, ENOSPC, ENOTSOCK,
    EOPNOTSUPP, EPERM, EPIPE,
};

#[test]
fn codes_are_those_of_the_platform() {
    assert_eq!(EPERM, libc::EPERM);
    assert_eq!(EIO, libc::EIO);
    assert_eq!(EBADF, libc::EBADF);
    assert_eq!(EAGAIN, libc::EAGAIN);
    assert_eq!(EAGAIN, libc::EWOULDBLOCK);
    assert_eq!(EFAULT, libc::EFAULT);
    assert_eq!(EISDIR, libc::EISDIR);
    assert_eq!(EINVAL, libc::EINVAL);
    assert_eq!(EFBIG, libc::EFBIG);
    assert_eq!(ENOSPC, libc::ENOSPC);
    assert_eq!(EPIPE, libc::EPIPE);
    assert_eq!(ENOTSOCK, libc::ENOTSOCK);
    assert_eq!(EDESTADDRREQ, libc::EDESTADDRREQ);
    assert_eq!(EOPNOTSUPP, libc::EOPNOTSUPP);
    assert_eq!(EDQUOT, libc::EDQUOT);
}

#[test]
fn codes_have_their_numbers() {
    assert_eq!(
        [EPERM, EIO, EBADF, EAGAIN, EFAULT, EISDIR, EINVAL, EFBIG, ENOSPC, EPIPE],
        [1, 5, 9, 11, 14, 21, 22, 27, 28, 32]
    );
    assert_eq!([ENOTSOCK, EDESTADDRREQ, EOPNOTSUPP, EDQUOT], [88, 89, 95, 122]);
}
