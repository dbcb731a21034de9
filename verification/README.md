# acid64c

A console player for C64 music (SID tunes) that drives real SID chips:
HardSID USB devices, SIDBlaster USB, USBSID-Pico, network SID devices
(the SID device protocol over TCP) and the Ultimate 64 / Ultimate-II+
over its REST interface. The emulation itself is done by the acid64pro
library.

## Layout

- `src/` is the library, verified with Verus: the command line and its
  options, the song length and STIL databases, the register mapping and
  write scheduling of each kind of device, the network protocol's packets
  and the decisions of the playing loop and the console.
- `app/` is the program around it: loading the acid64pro library, the USB,
  FTDI and network I/O, the threads, the clock and the keyboard. It hands
  the library plain values and carries out what the library decides.
- `tests/` runs the library on concrete inputs.
