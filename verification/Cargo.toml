[package]
name = "idx_file"
version = "0.1.0"
edition = "2021"
publish = false

[dependencies]
avltriee = "*"
file_mmap = "*"
