[package]
name = "eyepiece"
version = "0.1.0"
edition = "2021"
publish = false

[dependencies]
colorous = "*"
geotrans = "*"
image = "*"
indicatif = "*"
num-complex = "*"
num-traits = "*"
rand = "*"
rand_distr = "*"
rand_seeder = "*"
rustfft = "*"
skyangle = "*"
