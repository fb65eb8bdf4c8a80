# coreos_install

The decisions behind installing an operating system image to a disk, verified with
[Verus](https://github.com/verus-lang/verus).

An installation is a sequence of calls to the outside world: opening the device, fetching the
image, writing it, cleaning up. The library never makes such a call. `install::install` takes a
configuration on, `install::pending` names the next call, and `install::step` takes in what came
of it, until the installation is over. The larger calls are made up of steps of their own, which
`disk`, `ignition`, `firstboot`, `network`, `busy`, `bootfs` and `platform` lay out. `plan` says
what comes of such steps: they are taken in order, up to the first that fails.

- `filters` reads which partitions are kept. Label patterns are held against the `glob` crate,
  through `globs`, the only part of the library that is taken on trust.
- `runs` states what holds of every run, whatever comes of its calls: a disk is only written when
  it is a block device that nothing uses, with a single image that is signed where it has to be;
  a failure to write it is cleaned up and never reported as a success; every run ends.
- `text` and `number` are what the others need of strings and of decimal numbers.
- `app/` carries the calls out. What it needs from the rest of an installer is the `Host` trait.

The library is for Unix.
