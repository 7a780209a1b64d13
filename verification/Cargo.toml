[package]
name = "phatnoise"
version = "0.1.0"
edition = "2021"
publish = false

[dependencies]
unicode-casefold = "*"
id3 = "*"
metaflac = "*"
mp3-duration = "*"
walkdir = "*"
libc = "*"
rayon = "*"
sha2 = "*"
