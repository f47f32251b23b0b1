[package]
name = "wav_to_flac"
version = "0.1.0"
edition = "2021"
publish = false

[dependencies]
anyhow = "1"
audiotags = "*"
executors = "*"
hound = "3"
indicatif = "0.15"
log = "0.4"
num_cpus = "1"
pathdiff = "0.2"
pretty_env_logger = "0.4"
structopt = "0.3"
walkdir = "2"
